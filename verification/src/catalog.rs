//! The catalog of exporters, and the extras that a theme adopts from it.

use crate::exporter::Exporter;
use crate::name_map::{lemma_entries, NameMap};
use crate::palette::Swatch;
use vstd::prelude::*;

verus! {

/// The catalog that a list of exporters makes: each stands under its name,
/// and of several with one name the last.
pub open spec fn collected(list: Seq<Exporter>) -> Map<Seq<char>, Exporter>
    decreases list.len(),
{
    if list.len() == 0 {
        Map::empty()
    } else {
        collected(list.drop_last()).insert(list.last().name@, list.last())
    }
}

/// The names of the catalog that a list of exporters makes, in the order in
/// which each first occurs in the list.
pub open spec fn collected_names(list: Seq<Exporter>) -> Seq<Seq<char>>
    decreases list.len(),
{
    if list.len() == 0 {
        Seq::empty()
    } else {
        let front = collected_names(list.drop_last());
        if front.contains(list.last().name@) {
            front
        } else {
            front.push(list.last().name@)
        }
    }
}

/// A name is in the catalog exactly if an exporter of the list bears it.
pub proof fn lemma_collected_names(list: Seq<Exporter>, name: Seq<char>)
    ensures
        collected(list).contains_key(name) <==> exists|i: int|
            0 <= i < list.len() && (#[trigger] list[i]).name@ == name,
    decreases list.len(),
{
    if list.len() > 0 {
        let front = list.drop_last();
        lemma_collected_names(front, name);
        if collected(list).contains_key(name) {
            if list.last().name@ == name {
                assert(list[list.len() - 1].name@ == name);
            } else {
                let i = choose|i: int| 0 <= i < front.len() && (#[trigger] front[i]).name@ == name;
                assert(list[i].name@ == name);
            }
        }
        if exists|i: int| 0 <= i < list.len() && (#[trigger] list[i]).name@ == name {
            let i = choose|i: int| 0 <= i < list.len() && (#[trigger] list[i]).name@ == name;
            if i < front.len() {
                assert(front[i].name@ == name);
            }
        }
    }
}

/// The last exporter of a name wins: an exporter behind which none of the
/// same name follows is the one that the catalog holds under that name.
pub proof fn lemma_last_wins(list: Seq<Exporter>, i: int)
    requires
        0 <= i < list.len(),
        forall|j: int| i < j < list.len() ==> (#[trigger] list[j]).name@ != list[i].name@,
    ensures
        collected(list).contains_key(list[i].name@),
        collected(list)[list[i].name@] == list[i],
    decreases list.len(),
{
    if i < list.len() - 1 {
        let front = list.drop_last();
        assert(list[list.len() - 1].name@ != list[i].name@);
        assert forall|j: int| i < j < front.len() implies (#[trigger] front[j]).name@
            != front[i].name@ by {
            assert(list[j].name@ != list[i].name@);
        }
        lemma_last_wins(front, i);
    }
}

/// Builds the catalog: the built-in exporters first, then those that were
/// found; one that bears the name of an earlier one takes its place.
#[verifier::loop_isolation(false)]
pub fn collect_exporters(builtins: Vec<Exporter>, found: Vec<Exporter>) -> (catalog: NameMap<
    Exporter,
>)
    ensures
        catalog@ == collected(builtins@ + found@),
        catalog.names() == collected_names(builtins@ + found@),
        forall|i: int|
            0 <= i < catalog.names().len() ==> catalog.values()[i] == collected(
                builtins@ + found@,
            )[#[trigger] catalog.names()[i]],
{
    let ghost all = builtins@ + found@;
    let ghost first = builtins@.len() as int;
    let mut catalog: NameMap<Exporter> = NameMap::new();
    for exporter in it: builtins
        invariant
            it.seq() == builtins@,
            catalog@ == collected(all.take(it.index() as int)),
            catalog.names() == collected_names(all.take(it.index() as int)),
    {
        proof {
            let done = it.index() as int;
            assert(all.take(done + 1).drop_last() =~= all.take(done));
            assert(all.take(done + 1).last() == exporter);
        }
        let name = exporter.name.clone();
        catalog.insert(name.as_str(), exporter);
    }
    for exporter in it: found
        invariant
            it.seq() == found@,
            catalog@ == collected(all.take(first + it.index())),
            catalog.names() == collected_names(all.take(first + it.index())),
    {
        proof {
            let done = first + it.index();
            assert(all.take(done + 1).drop_last() =~= all.take(done));
            assert(all.take(done + 1).last() == exporter);
        }
        let name = exporter.name.clone();
        catalog.insert(name.as_str(), exporter);
    }
    assert(all.take(all.len() as int) =~= all);
    // The length is not needed; asking for it tells that no name occurs twice.
    let _entries = catalog.len();
    proof {
        lemma_entries(catalog);
    }
    catalog
}

/// Whether a theme with the extras `book` adopts the default extras of the
/// catalog's exporter `name`: the exporter declares some and the theme holds
/// none for it.
pub open spec fn adopts(
    book: Map<Seq<char>, NameMap<usize>>,
    catalog: Map<Seq<char>, Exporter>,
    name: Seq<char>,
) -> bool {
    !book.contains_key(name) && catalog.contains_key(name) && catalog[name].extras is Some
}

/// Whether `after` is `before` with the adopted defaults: it holds what
/// `before` holds, unchanged, and for each exporter whose defaults are
/// adopted a copy of them, and nothing else.
pub open spec fn adopted(
    before: Map<Seq<char>, NameMap<usize>>,
    catalog: Map<Seq<char>, Exporter>,
    after: Map<Seq<char>, NameMap<usize>>,
) -> bool {
    &&& forall|name: Seq<char>| #[trigger]
        after.contains_key(name) <==> before.contains_key(name) || adopts(before, catalog, name)
    &&& forall|name: Seq<char>| before.contains_key(name) ==> #[trigger] after[name] == before[name]
    &&& forall|name: Seq<char>|
        adopts(before, catalog, name) ==> {
            &&& (#[trigger] after[name]).names() == catalog[name].extras->0.names()
            &&& after[name].values() == catalog[name].extras->0.values()
        }
}

/// Every exporter of a catalog that a list makes stands under its own name.
pub proof fn lemma_collected_under_own_name(list: Seq<Exporter>, name: Seq<char>)
    requires
        collected(list).contains_key(name),
    ensures
        collected(list)[name].name@ == name,
    decreases list.len(),
{
    if list.len() > 0 && list.last().name@ != name {
        lemma_collected_under_own_name(list.drop_last(), name);
    }
}

/// Adopting defaults changes no export: an exporter that stands in the
/// catalog under its own name renders the same text with the theme's extras
/// before and after the adoption.
pub proof fn lemma_adoption_keeps_exports(
    exporter: Exporter,
    palette: Seq<Swatch>,
    accent: nat,
    before: Map<Seq<char>, NameMap<usize>>,
    catalog: Map<Seq<char>, Exporter>,
    after: Map<Seq<char>, NameMap<usize>>,
)
    requires
        adopted(before, catalog, after),
        catalog.contains_key(exporter.name@),
        catalog[exporter.name@] == exporter,
    ensures
        exporter.exported(palette, accent, after) == exporter.exported(palette, accent, before),
{
    let name = exporter.name@;
    if before.contains_key(name) {
        assert(after.contains_key(name));
        assert(after[name] == before[name]);
    } else if exporter.extras is Some {
        assert(adopts(before, catalog, name));
        assert(after.contains_key(name));
        assert(after[name].names() == exporter.extras->0.names());
    } else {
        assert(!adopts(before, catalog, name));
        assert(!after.contains_key(name));
    }
}

/// The names, among the first `upto` of the catalog, of the exporters whose
/// default extras the theme adopts, in catalog order.
pub open spec fn adopted_names(
    book: Map<Seq<char>, NameMap<usize>>,
    names: Seq<Seq<char>>,
    exporters: Seq<Exporter>,
    upto: nat,
) -> Seq<Seq<char>>
    decreases upto,
{
    if upto == 0 {
        Seq::empty()
    } else {
        let rest = adopted_names(book, names, exporters, (upto - 1) as nat);
        if exporters[upto - 1].extras is Some && !book.contains_key(names[upto - 1]) {
            rest.push(names[upto - 1])
        } else {
            rest
        }
    }
}

/// Gives the theme the default extras of every exporter for which it holds
/// none.  What the theme holds stays as it is.
pub fn adopt_default_extras(book: &mut NameMap<NameMap<usize>>, catalog: &NameMap<Exporter>)
    ensures
        final(book).names() == old(book).names() + adopted_names(
            old(book)@,
            catalog.names(),
            catalog.values(),
            catalog.names().len(),
        ),
        adopted(old(book)@, catalog@, final(book)@),
{
    let count = catalog.len();
    proof {
        lemma_entries(*catalog);
        assert(book.names() + Seq::<Seq<char>>::empty() =~= book.names());
    }
    let mut i: usize = 0;
    while i < count
        invariant
            i <= count,
            count == catalog.names().len(),
            count == catalog.values().len(),
            catalog.names().no_duplicates(),
            book.names() == old(book).names() + adopted_names(
                old(book)@,
                catalog.names(),
                catalog.values(),
                i as nat,
            ),
            forall|name: Seq<char>| #[trigger]
                book@.contains_key(name) <==> old(book)@.contains_key(name) || (adopts(
                    old(book)@,
                    catalog@,
                    name,
                ) && catalog.names().index_of(name) < i),
            forall|name: Seq<char>|
                old(book)@.contains_key(name) ==> #[trigger] book@[name] == old(book)@[name],
            forall|name: Seq<char>|
                adopts(old(book)@, catalog@, name) && catalog.names().index_of(name) < i ==> {
                    &&& (#[trigger] book@[name]).names() == catalog@[name].extras->0.names()
                    &&& book@[name].values() == catalog@[name].extras->0.values()
                },
        decreases count - i,
    {
        proof {
            lemma_entries(*catalog);
        }
        let ghost before = book@;
        let ghost names_before = book.names();
        let ghost key = catalog.names()[i as int];
        let ghost adopted = adopted_names(
            old(book)@,
            catalog.names(),
            catalog.values(),
            i as nat,
        );
        assert(catalog@.contains_key(key) && catalog@[key] == catalog.values()[i as int]);
        assert(catalog.names().index_of(key) == i);
        match (catalog.name_at(i), catalog.value_at(i)) {
            (Some(name), Some(exporter)) => {
                match &exporter.extras {
                    Some(extras) => {
                        if !book.contains_key(name.as_str()) {
                            let copy = extras.duplicate();
                            book.insert(name.as_str(), copy);
                            assert(adopts(old(book)@, catalog@, key));
                        }
                    },
                    None => {},
                }
            },
            _ => {},
        }
        proof {
            if catalog.values()[i as int].extras is Some && !old(book)@.contains_key(key) {
                assert(!before.contains_key(key));
                assert(book.names() =~= old(book).names() + adopted.push(key));
            } else {
                assert(book.names() == names_before);
            }
        }
        proof {
            assert forall|name: Seq<char>| #[trigger]
                book@.contains_key(name) <==> old(book)@.contains_key(name) || (adopts(
                    old(book)@,
                    catalog@,
                    name,
                ) && catalog.names().index_of(name) < i + 1) by {
                if name != key && catalog@.contains_key(name) {
                    assert(catalog.names().index_of(name) != i);
                }
            }
            assert forall|name: Seq<char>|
                adopts(old(book)@, catalog@, name) && catalog.names().index_of(name) < i
                    + 1 implies {
                &&& (#[trigger] book@[name]).names() == catalog@[name].extras->0.names()
                &&& book@[name].values() == catalog@[name].extras->0.values()
            } by {
                if name != key {
                    assert(catalog.names().index_of(name) != i);
                }
            }
        }
        i += 1;
    }
    proof {
        lemma_entries(*catalog);
    }
}

} // verus!
