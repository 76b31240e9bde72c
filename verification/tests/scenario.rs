use colcon::{convert_space_chunked, srgb_to_irgb, Space};
use collurgy::exporter::Exporter;
use collurgy::palette::{Palette, Swatch};
use collurgy::name_map::NameMap;
use collurgy::layout::{BaseColors, Mix};

struct Theme {
    model: Space,
    high2023: f32,
    foreground: [f32; 3],
    background: [f32; 3],
    spectrum: [f32; 3],
    spectrum_bright: [f32; 3],
    accent: usize,
}

fn bases(theme: &Theme) -> BaseColors<[f32; 3]> {
    BaseColors {
        foreground: theme.foreground,
        background: theme.background,
        spectrum: theme.spectrum,
        spectrum_bright: theme.spectrum_bright,
    }
}

/// The perceptual coordinates of the sixteen slots, before conversion.
fn perceptual(theme: &Theme) -> Vec<[f32; 3]> {
    bases(theme)
        .compute()
        .into_iter()
        .map(|mix| match mix {
            Mix::Plain { color } => color,
            Mix::Blend { near: a, far: b } => {
                [(a[0] * 2.0 + b[0]) / 3.0, (a[1] * 2.0 + b[1]) / 3.0, (a[2] * 2.0 + b[2]) / 3.0]
            }
            Mix::Rotation { color: c, steps } => [c[0], c[1], 60.0 * (steps as f32) + c[2]],
        })
        .collect()
}

fn converted(theme: &Theme, colors: &mut [[f32; 3]]) {
    let space = theme.model;
    if space == Space::HSV {
        colors.iter_mut().for_each(|p| *p = [p[2] / 360.0, p[1] / 100.0, p[0] / 100.0]);
    } else {
        colors.iter_mut().for_each(|p| {
            p[0] = p[0] / 99.9 * space.srgb_quant100()[0];
            p[1] = p[1] / 100.0 * space.srgb_quant95()[1];
        });
        if theme.high2023 != 0.0 {
            colors.iter_mut().for_each(|col| {
                col[0] += (space.srgb_quant100()[0] * 0.2 - colcon::hk_high2023(col))
                    * (col[1] / space.srgb_quant95()[1])
                    * theme.high2023
            });
        }
    }
    convert_space_chunked(space, Space::SRGB, colors);
}

fn palette(theme: &Theme) -> Palette {
    let mut colors = perceptual(theme);
    converted(theme, &mut colors);
    let swatches = colors
        .iter()
        .map(|pixel| Swatch { irgb: srgb_to_irgb(*pixel), frgb: pixel.map(|c| c.to_string()) })
        .collect();
    Palette::new(swatches).unwrap()
}

fn scenario() -> Theme {
    Theme {
        model: Space::CIELCH,
        high2023: 0.0,
        foreground: [100.0, 0.0, 0.0],
        background: [0.0, 0.0, 0.0],
        spectrum: [35.0, 35.0, 0.0],
        spectrum_bright: [65.0, 65.0, 0.0],
        accent: 11,
    }
}

fn exporter(formatter: &str) -> Exporter {
    Exporter {
        name: "scenario".to_string(),
        formatter: formatter.to_string(),
        path: None,
        extras: None,
    }
}

#[test]
fn black_and_white_scenario() {
    let theme = scenario();
    let text = exporter("{HEX0}-{HEX15}").export(&palette(&theme), theme.accent, &NameMap::new());
    assert_eq!(text, "000000-FFFFFF");
}

#[test]
fn scenario_hues_before_conversion() {
    let colors = perceptual(&scenario());
    assert_eq!(colors[1], [35.0, 35.0, 0.0]);
    assert_eq!(colors[3], [35.0, 35.0, 60.0]);
    assert_eq!(colors[2], [35.0, 35.0, 120.0]);
    assert_eq!(colors[6], [35.0, 35.0, 180.0]);
    assert_eq!(colors[4], [35.0, 35.0, 240.0]);
    assert_eq!(colors[5], [35.0, 35.0, 300.0]);
    assert_eq!(colors[9], [65.0, 65.0, 0.0]);
    assert_eq!(colors[11], [65.0, 65.0, 60.0]);
    assert_eq!(colors[14], [65.0, 65.0, 180.0]);
}

#[test]
fn scenario_accent_is_bright_yellow() {
    let theme = scenario();
    let text = exporter("{ACCHEX}={HEX11} {ACCR}={R11}").export(
        &palette(&theme),
        theme.accent,
        &NameMap::new(),
    );
    let parts: Vec<&str> = text.split(|c| c == '=' || c == ' ').collect();
    assert_eq!(parts.len(), 4);
    assert_eq!(parts[0], parts[1]);
    assert_eq!(parts[2], parts[3]);
    assert_eq!(parts[0].len(), 6);
}

#[test]
fn ends_convert_like_the_ground_colours() {
    for model in [Space::HSV, Space::CIELCH, Space::OKLCH, Space::JZCZHZ] {
        let theme = Theme {
            model,
            high2023: 0.5,
            foreground: [90.0, 10.0, 40.0],
            background: [10.0, 5.0, 200.0],
            spectrum: [50.0, 50.0, 30.0],
            spectrum_bright: [70.0, 50.0, 30.0],
            accent: 0,
        };
        let mut all = perceptual(&theme);
        converted(&theme, &mut all);
        let mut ground = [theme.background, theme.foreground];
        converted(&theme, &mut ground);
        for c in 0..3 {
            assert!((all[0][c] - ground[0][c]).abs() < 1e-6);
            assert!((all[15][c] - ground[1][c]).abs() < 1e-6);
        }
    }
}

#[test]
fn blends_are_weighted_means_before_conversion() {
    let theme = Theme {
        model: Space::OKLCH,
        high2023: 0.0,
        foreground: [90.0, 30.0, 60.0],
        background: [0.0, 0.0, 0.0],
        spectrum: [50.0, 50.0, 30.0],
        spectrum_bright: [70.0, 50.0, 30.0],
        accent: 0,
    };
    let colors = perceptual(&theme);
    assert_eq!(colors[8], [30.0, 10.0, 20.0]);
    assert_eq!(colors[7], [60.0, 20.0, 40.0]);
    assert_eq!(colors[0], theme.background);
    assert_eq!(colors[15], theme.foreground);
}

#[test]
fn default_theme_renders_every_slot() {
    let theme = Theme {
        model: Space::OKLCH,
        high2023: 0.0,
        foreground: [100.0, 0.0, 0.0],
        background: [0.0; 3],
        spectrum: [50.0, 50.0, 30.0],
        spectrum_bright: [70.0, 50.0, 30.0],
        accent: 11,
    };
    let mut template = String::new();
    for n in 0..16 {
        template.push_str(&format!("{{HEX{}}} {{FR{}}};", n, n));
    }
    let text = exporter(&template).export(&palette(&theme), theme.accent, &NameMap::new());
    assert!(!text.contains('{'));
    assert_eq!(text.split(';').filter(|part| !part.is_empty()).count(), 16);
    assert!(text.starts_with("000000 "));
}
