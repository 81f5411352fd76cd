//! Laws of the two builders, proved over the document images their
//! contracts speak of.

use vstd::prelude::*;

use crate::json::distinct_keys;
use crate::json::entry_of;
use crate::json::has_key;
use crate::json::key_index;
use crate::json::JsonData;
use crate::model::ConfigView;
use crate::model::ParamView;
use crate::schema::declaration_of;
use crate::schema::declarations_of;
use crate::schema::enum_list_of;
use crate::schema::gemini_doc;
use crate::schema::lemma_key_literals;
use crate::schema::openai_doc;
use crate::schema::property_entries;
use crate::schema::property_of;
use crate::schema::props_of;
use crate::schema::required_of;
use crate::schema::tool_of;
use crate::schema::tools_of;

verus! {

/// A configuration with no functions yields the fixed Gemini document
/// with an empty declaration list, and the fixed OpenAI document with
/// an empty tool list.
pub proof fn lemma_empty_config(c: ConfigView)
    requires
        c.functions.len() == 0,
    ensures
        gemini_doc(c) == JsonData::Obj(
            seq![
                (
                    "tools"@,
                    JsonData::Obj(
                        seq![("functionDeclarations"@, JsonData::Arr(Seq::<JsonData>::empty()))],
                    ),
                ),
            ],
        ),
        openai_doc(c) == JsonData::Obj(
            seq![("tools"@, JsonData::Arr(Seq::<JsonData>::empty()))],
        ),
{
    assert(declarations_of(c.functions) =~= Seq::<JsonData>::empty());
    assert(tools_of(c.functions) =~= Seq::<JsonData>::empty());
}

/// The `required` list holds exactly the names of the parameters whose
/// `required` flag is set, as JSON strings, in parameter order.
pub proof fn lemma_required_exact(ps: Seq<ParamView>)
    ensures
        required_of(ps) == ps.filter(|p: ParamView| p.required).map_values(
            |p: ParamView| JsonData::Str(p.name),
        ),
    decreases ps.len(),
{
    reveal(Seq::filter);
    if ps.len() == 0 {
        assert(required_of(ps) =~= ps.filter(|p: ParamView| p.required).map_values(
            |p: ParamView| JsonData::Str(p.name),
        ));
    } else {
        lemma_required_exact(ps.drop_last());
        assert(required_of(ps) =~= ps.filter(|p: ParamView| p.required).map_values(
            |p: ParamView| JsonData::Str(p.name),
        ));
    }
}

/// A parameter with an enumeration gets an `"enum"` entry holding that
/// exact list; one without gets no `"enum"` entry at all.
pub proof fn lemma_property_enum(p: ParamView)
    ensures
        p.enum_values matches Some(vs) ==> has_key(property_entries(p), "enum"@) && entry_of(
            property_entries(p),
            "enum"@,
        ) == JsonData::Arr(enum_list_of(vs)),
        p.enum_values is None ==> !has_key(property_entries(p), "enum"@),
{
    lemma_key_literals();
    match p.enum_values {
        Some(vs) => {
            let entries = property_entries(p);
            assert(entries[2].0 == "enum"@);
            assert(has_key(entries, "enum"@));
        },
        None => {},
    }
}

/// Both documents list the functions in input order: one entry for the
/// function at each input position, and no others.
pub proof fn lemma_function_order(fs: Seq<crate::model::FunctionView>)
    ensures
        declarations_of(fs).len() == fs.len(),
        tools_of(fs).len() == fs.len(),
        forall|i: int|
            0 <= i < fs.len() ==> #[trigger] declarations_of(fs)[i] == declaration_of(fs[i]),
        forall|i: int| 0 <= i < fs.len() ==> #[trigger] tools_of(fs)[i] == tool_of(fs[i]),
{
}

/// The `properties` object has an entry for a name precisely when some
/// parameter carries that name.
pub proof fn lemma_props_keys(ps: Seq<ParamView>, n: Seq<char>)
    ensures
        has_key(props_of(ps), n) <==> exists|i: int| 0 <= i < ps.len() && ps[i].name == n,
    decreases ps.len(),
{
    if ps.len() != 0 {
        let d = ps.drop_last();
        let last = ps.last();
        lemma_props_keys(d, n);
        let e = props_of(d);
        let r = props_of(ps);
        if has_key(e, last.name) {
            let ki = key_index(e, last.name);
            assert(e[ki].0 == last.name);
            assert(r == e.update(ki, (last.name, property_of(last))));
            assert(forall|j: int| 0 <= j < e.len() ==> #[trigger] r[j].0 == e[j].0);
            if has_key(r, n) {
                let j = key_index(r, n);
                assert(e[j].0 == n);
                assert(has_key(e, n));
                let i = choose|i: int| 0 <= i < d.len() && d[i].name == n;
                assert(ps[i].name == n);
            }
            if exists|i: int| 0 <= i < ps.len() && ps[i].name == n {
                let i = choose|i: int| 0 <= i < ps.len() && ps[i].name == n;
                if i < ps.len() - 1 {
                    assert(d[i].name == n);
                    let j = key_index(e, n);
                    assert(r[j].0 == n);
                } else {
                    assert(n == last.name);
                    assert(r[ki].0 == n);
                }
                assert(has_key(r, n));
            }
        } else {
            assert(r == e.push((last.name, property_of(last))));
            assert(forall|j: int| 0 <= j < e.len() ==> #[trigger] r[j].0 == e[j].0);
            assert(r[e.len() as int].0 == last.name);
            if has_key(r, n) {
                let j = key_index(r, n);
                if j < e.len() {
                    assert(e[j].0 == n);
                    assert(has_key(e, n));
                    let i = choose|i: int| 0 <= i < d.len() && d[i].name == n;
                    assert(ps[i].name == n);
                } else {
                    assert(n == last.name);
                    assert(ps[ps.len() - 1].name == n);
                }
            }
            if exists|i: int| 0 <= i < ps.len() && ps[i].name == n {
                let i = choose|i: int| 0 <= i < ps.len() && ps[i].name == n;
                if i < ps.len() - 1 {
                    assert(d[i].name == n);
                    let j = key_index(e, n);
                    assert(r[j].0 == n);
                } else {
                    assert(r[e.len() as int].0 == n);
                }
                assert(has_key(r, n));
            }
        }
    }
}

/// The `properties` object never holds two entries with one name.
pub proof fn lemma_props_distinct(ps: Seq<ParamView>)
    ensures
        distinct_keys(props_of(ps)),
    decreases ps.len(),
{
    if ps.len() != 0 {
        let d = ps.drop_last();
        let last = ps.last();
        lemma_props_distinct(d);
        let e = props_of(d);
        let r = props_of(ps);
        if has_key(e, last.name) {
            let ki = key_index(e, last.name);
            assert(e[ki].0 == last.name);
            assert(r == e.update(ki, (last.name, property_of(last))));
            assert(forall|j: int| 0 <= j < e.len() ==> #[trigger] r[j].0 == e[j].0);
        } else {
            assert(r == e.push((last.name, property_of(last))));
            assert(forall|j: int| 0 <= j < e.len() ==> #[trigger] r[j].0 == e[j].0);
            assert(forall|j: int| 0 <= j < e.len() ==> #[trigger] e[j].0 != last.name);
        }
    }
}

/// The position of the last parameter carrying a given name.
pub open spec fn last_with_name(ps: Seq<ParamView>, n: Seq<char>) -> int
    decreases ps.len(),
{
    if ps.len() == 0 {
        0
    } else if ps.last().name == n {
        ps.len() - 1
    } else {
        last_with_name(ps.drop_last(), n)
    }
}

/// When some parameter carries the name, `last_with_name` points at its
/// last carrier.
pub proof fn lemma_last_with_name(ps: Seq<ParamView>, n: Seq<char>)
    requires
        exists|i: int| 0 <= i < ps.len() && ps[i].name == n,
    ensures
        0 <= last_with_name(ps, n) < ps.len(),
        ps[last_with_name(ps, n)].name == n,
        forall|j: int| last_with_name(ps, n) < j < ps.len() ==> ps[j].name != n,
    decreases ps.len(),
{
    let last = ps.last();
    if last.name != n {
        let d = ps.drop_last();
        let i = choose|i: int| 0 <= i < ps.len() && ps[i].name == n;
        assert(0 <= i < d.len() && d[i].name == n);
        lemma_last_with_name(d, n);
        assert(forall|j: int|
            last_with_name(ps, n) < j < ps.len() - 1 ==> ps[j].name == d[j].name && ps[j].name
                != n);
    }
}

/// Parameters sharing one name yield exactly one `properties` entry for
/// it, holding the last-declared carrier's definition: a later
/// duplicate overwrites an earlier one in place.
pub proof fn lemma_props_last_wins(ps: Seq<ParamView>, n: Seq<char>)
    requires
        exists|i: int| 0 <= i < ps.len() && ps[i].name == n,
    ensures
        has_key(props_of(ps), n),
        distinct_keys(props_of(ps)),
        entry_of(props_of(ps), n) == property_of(ps[last_with_name(ps, n)]),
    decreases ps.len(),
{
    lemma_props_keys(ps, n);
    lemma_props_distinct(ps);
    let d = ps.drop_last();
    let last = ps.last();
    let e = props_of(d);
    let r = props_of(ps);
    let j = key_index(r, n);
    assert(0 <= j < r.len() && r[j].0 == n);
    if last.name == n {
        if has_key(e, n) {
            let ki = key_index(e, n);
            assert(e[ki].0 == n);
            assert(r == e.update(ki, (n, property_of(last))));
            assert(r[ki].0 == n);
            assert(j == ki);
            assert(entry_of(r, n) == property_of(last));
        } else {
            assert(r == e.push((n, property_of(last))));
            if j < e.len() {
                assert(e[j].0 == n);
                assert(has_key(e, n));
                assert(false);
            }
            assert(entry_of(r, n) == property_of(last));
        }
    } else {
        let i0 = choose|i: int| 0 <= i < ps.len() && ps[i].name == n;
        assert(0 <= i0 < d.len() && d[i0].name == n);
        lemma_props_last_wins(d, n);
        lemma_last_with_name(d, n);
        let jd = key_index(e, n);
        assert(0 <= jd < e.len() && e[jd].0 == n);
        if has_key(e, last.name) {
            let ki = key_index(e, last.name);
            assert(e[ki].0 == last.name);
            assert(r == e.update(ki, (last.name, property_of(last))));
            assert(jd != ki);
            assert(r[jd] == e[jd]);
            assert(j == jd);
            assert(entry_of(r, n) == entry_of(e, n));
        } else {
            assert(r == e.push((last.name, property_of(last))));
            assert(r[jd] == e[jd]);
            if j == e.len() {
                assert(r[j].0 == last.name);
                assert(false);
            }
            assert(j == jd);
            assert(entry_of(r, n) == entry_of(e, n));
        }
        assert(last_with_name(ps, n) == last_with_name(d, n));
        assert(ps[last_with_name(ps, n)] == d[last_with_name(d, n)]);
    }
}

/// With pairwise-distinct parameter names the `properties` entries sit
/// in parameter order, one per parameter.
pub proof fn lemma_props_order(ps: Seq<ParamView>)
    requires
        forall|i: int, j: int| 0 <= i < j < ps.len() ==> ps[i].name != ps[j].name,
    ensures
        props_of(ps).len() == ps.len(),
        forall|i: int|
            0 <= i < ps.len() ==> #[trigger] props_of(ps)[i] == (ps[i].name, property_of(ps[i])),
    decreases ps.len(),
{
    if ps.len() != 0 {
        let d = ps.drop_last();
        let last = ps.last();
        assert(forall|i: int, j: int| 0 <= i < j < d.len() ==> d[i].name != d[j].name);
        lemma_props_order(d);
        let e = props_of(d);
        assert(!has_key(e, last.name)) by {
            if has_key(e, last.name) {
                let k = key_index(e, last.name);
                assert(e[k] == (d[k].name, property_of(d[k])));
                assert(ps[k].name == ps[ps.len() - 1].name);
                assert(false);
            }
        };
        assert(props_of(ps) == e.push((last.name, property_of(last))));
        assert forall|i: int| 0 <= i < ps.len() implies #[trigger] props_of(ps)[i] == (
            ps[i].name,
            property_of(ps[i]),
        ) by {
            if i < ps.len() - 1 {
                assert(props_of(ps)[i] == e[i]);
                assert(d[i] == ps[i]);
            }
        };
    }
}

/// Both builders are pure: each document is a function of the
/// configuration alone, so with each builder's contract, equal
/// configurations give equal output strings.
pub proof fn lemma_builders_deterministic(c1: ConfigView, c2: ConfigView)
    requires
        c1 == c2,
    ensures
        crate::json::pretty_of(gemini_doc(c1)) == crate::json::pretty_of(gemini_doc(c2)),
        crate::json::pretty_of(openai_doc(c1)) == crate::json::pretty_of(openai_doc(c2)),
{
}

} // verus!
