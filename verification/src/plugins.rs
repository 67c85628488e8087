//! Decoding of the plugin directory protocol: a free-text chat reply is
//! held to a strict line-positional grammar and decoded into records.
//!
//! A directory listing reply is one header line followed by one
//! `"<id> - <name>"` line per plugin; the header is discarded unconditionally
//! and each id is looked up with a further info request.  An info reply is a
//! first line carrying the id between `#` markers, a second line whose text
//! after the first `": "` is the display name, and any number of further
//! `Key: Value` lines, of which only `Description` is retained.  Every
//! deviation from the grammar is a decode failure for the whole operation,
//! never a partial result.

use vstd::prelude::*;

use crate::protocol::ChatResponse;

use crate::text::find_sub;
use crate::text::find_pattern;
use crate::text::lines_of;
use crate::text::split_lines;
use crate::text::trim_of;
use crate::text::trim;
use crate::text::remove_colons;
use crate::text::strip_colons;
use crate::text::str_eq;
use crate::text::contains_sub;

verus! {

/// The mathematical shape of one decoded plugin record.
pub struct PluginView {
    pub id: Seq<char>,
    pub name: Seq<char>,
    pub description: Option<Seq<char>>,
}

/// One plugin the remote agent exposes.
#[derive(Clone, Debug)]
pub struct Plugin {
    pub id: String,
    pub name: String,
    pub description: Option<String>,
}

impl View for Plugin {
    type V = PluginView;

    open spec fn view(&self) -> PluginView {
        PluginView {
            id: self.id@,
            name: self.name@,
            description: self.description.deep_view(),
        }
    }
}

impl DeepView for Plugin {
    type V = PluginView;

    open spec fn deep_view(&self) -> PluginView {
        self.view()
    }
}

/// The complete plugin directory of one agent.
#[derive(Clone, Debug)]
pub struct PluginList {
    pub plugins: Vec<Plugin>,
}

/// The id carried by the first line of an info reply: the text between the
/// first two `#` markers (or after a single one), with colons removed.
pub open spec fn id_of_header(l: Seq<char>) -> Option<Seq<char>> {
    match find_sub(l, "#"@) {
        None => None,
        Some(i) => {
            let after = l.skip(i + 1);
            match find_sub(after, "#"@) {
                None => Some(remove_colons(after)),
                Some(j) => Some(remove_colons(after.take(j))),
            }
        },
    }
}

/// The display name carried by the second line of an info reply: everything
/// after the first `": "`.
pub open spec fn name_of_line(l: Seq<char>) -> Option<Seq<char>> {
    match find_sub(l, ": "@) {
        None => None,
        Some(i) => Some(l.skip(i + 2)),
    }
}

/// The description carried by the `Key: Value` lines of an info reply.
/// The outer option is the decode outcome: a line without `": "` fails the
/// whole reply.  The inner option is the `Description` value, the last one
/// when the key appears more than once; keys other than `Description` are
/// ignored.
pub open spec fn desc_of_lines(ls: Seq<Seq<char>>) -> Option<Option<Seq<char>>>
    decreases ls.len(),
{
    if ls.len() == 0 {
        Some(None)
    } else {
        match find_sub(ls[0], ": "@) {
            None => None,
            Some(i) => {
                let key = trim_of(ls[0].take(i));
                let value = trim_of(ls[0].skip(i + 2));
                match desc_of_lines(ls.drop_first()) {
                    None => None,
                    Some(rest) => if key == "Description"@ {
                        if rest is Some {
                            Some(rest)
                        } else {
                            Some(Some(value))
                        }
                    } else {
                        Some(rest)
                    },
                }
            },
        }
    }
}

/// The record an info reply decodes to, if it obeys the grammar: the id
/// line, the name line, then the `Key: Value` lines.
pub open spec fn spec_plugin_info(text: Seq<char>) -> Option<PluginView> {
    let ls = lines_of(text);
    if ls.len() < 2 {
        None
    } else {
        match id_of_header(ls[0]) {
            None => None,
            Some(id) => match name_of_line(ls[1]) {
                None => None,
                Some(name) => match desc_of_lines(ls.skip(2)) {
                    None => None,
                    Some(description) => Some(PluginView { id, name, description }),
                },
            },
        }
    }
}

/// The plugin ids a directory listing reply names, one per non-empty line
/// after the header: the text before the first `" - "`, trimmed.  A
/// non-empty line without the separator fails the whole listing.
pub open spec fn ids_of_lines(ls: Seq<Seq<char>>) -> Option<Seq<Seq<char>>>
    decreases ls.len(),
{
    if ls.len() == 0 {
        Some(Seq::empty())
    } else if ls[0].len() == 0 {
        ids_of_lines(ls.drop_first())
    } else {
        match find_sub(ls[0], " - "@) {
            None => None,
            Some(i) => match ids_of_lines(ls.drop_first()) {
                None => None,
                Some(ids) => Some(seq![trim_of(ls[0].take(i))] + ids),
            },
        }
    }
}

/// The ids of a whole listing reply, after the header line is discarded.
pub open spec fn spec_list_ids(text: Seq<char>) -> Option<Seq<Seq<char>>> {
    let ls = lines_of(text);
    if ls.len() == 0 {
        Some(Seq::empty())
    } else {
        ids_of_lines(ls.skip(1))
    }
}

fn parse_header_id(l: &str) -> (r: Option<String>)
    ensures
        match r {
            Some(id) => id_of_header(l@) == Some(id@),
            None => id_of_header(l@) is None,
        },
{
    proof {
        reveal_strlit("#");
    }
    let n: usize = l.unicode_len();
    match find_pattern(l, "#") {
        None => None,
        Some(i) => {
            let after = l.substring_char(i + 1, n);
            proof {
                assert(after@ =~= l@.skip(i + 1));
            }
            match find_pattern(after, "#") {
                None => Some(strip_colons(after)),
                Some(j) => {
                    let field = after.substring_char(0, j);
                    proof {
                        assert(field@ =~= after@.take(j as int));
                    }
                    Some(strip_colons(field))
                },
            }
        },
    }
}

fn parse_name_line<'a>(l: &'a str) -> (r: Option<&'a str>)
    ensures
        match r {
            Some(name) => name_of_line(l@) == Some(name@),
            None => name_of_line(l@) is None,
        },
{
    proof {
        reveal_strlit(": ");
    }
    let n: usize = l.unicode_len();
    match find_pattern(l, ": ") {
        None => None,
        Some(i) => {
            let name = l.substring_char(i + 2, n);
            proof {
                assert(name@ =~= l@.skip(i + 2));
            }
            Some(name)
        },
    }
}

/// Decodes one plugin info reply against the line-positional grammar, as
/// [`spec_plugin_info`] names the outcome: the record on a reply that obeys
/// the grammar, and nothing on any reply that deviates from it.
pub fn parse_plugin_info(text: &str) -> (r: Option<Plugin>)
    ensures
        r.deep_view() == spec_plugin_info(text@),
{
    let ls = split_lines(text);
    let ghost lsv = lines_of(text@);
    proof {
        assert(ls@.len() == lsv.len());
    }
    if ls.len() < 2 {
        return None;
    }
    let id = match parse_header_id(ls[0]) {
        None => {
            proof {
                assert(ls@[0]@ == lsv[0]);
            }
            return None;
        },
        Some(x) => x,
    };
    let name = match parse_name_line(ls[1]) {
        None => {
            proof {
                assert(ls@[1]@ == lsv[1]);
            }
            return None;
        },
        Some(x) => x,
    };
    proof {
        assert(ls@[0]@ == lsv[0]);
        assert(ls@[1]@ == lsv[1]);
    }
    let mut k: usize = 2;
    let mut desc: Option<String> = None;
    while k < ls.len()
        invariant
            2 <= k <= ls@.len(),
            lsv == lines_of(text@),
            lsv.len() >= 2,
            ls.deep_view() == lsv,
            desc_of_lines(lsv.skip(2)) == match desc_of_lines(lsv.skip(k as int)) {
                None => None::<Option<Seq<char>>>,
                Some(rest) => if rest is Some {
                    Some(rest)
                } else {
                    Some(desc.deep_view())
                },
            },
        decreases ls@.len() - k,
    {
        let l = ls[k];
        proof {
            assert(ls@[k as int]@ == lsv[k as int]);
            assert(lsv.skip(k as int)[0] == lsv[k as int]);
            assert(lsv.skip(k as int).drop_first() =~= lsv.skip(k + 1));
            reveal_strlit(": ");
        }
        let ln: usize = l.unicode_len();
        match find_pattern(l, ": ") {
            None => {
                return None;
            },
            Some(i) => {
                let key = trim(l.substring_char(0, i));
                let value = trim(l.substring_char(i + 2, ln));
                proof {
                    assert(l@.subrange(0, i as int) =~= l@.take(i as int));
                    assert(l@.subrange(i + 2, ln as int) =~= l@.skip(i + 2));
                }
                if str_eq(key, "Description") {
                    desc = Some(value.to_owned());
                }
            },
        }
        k = k + 1;
    }
    proof {
        assert(lsv.skip(k as int) =~= Seq::<Seq<char>>::empty());
    }
    let record = Plugin { id, name: name.to_owned(), description: desc };
    Some(record)
}

/// Decodes a directory listing reply into the ordered plugin ids, as
/// [`spec_list_ids`] names them: the header line is discarded, each further
/// non-empty line must carry `" - "`, and the trimmed text before the
/// separator is the id.  One malformed line fails the whole listing.
pub fn parse_plugin_list_ids(text: &str) -> (r: Option<Vec<String>>)
    ensures
        r.deep_view() == spec_list_ids(text@),
{
    let ls = split_lines(text);
    let ghost lsv = lines_of(text@);
    proof {
        assert(ls@.len() == lsv.len());
    }
    if ls.len() == 0 {
        let ids: Vec<String> = Vec::new();
        proof {
            assert(ids.deep_view() =~= Seq::<Seq<char>>::empty());
        }
        return Some(ids);
    }
    let mut ids: Vec<String> = Vec::new();
    let mut k: usize = 1;
    proof {
        assert(ids.deep_view() + ids_of_lines(lsv.skip(1))->Some_0 =~= ids_of_lines(
            lsv.skip(1),
        )->Some_0);
    }
    while k < ls.len()
        invariant
            1 <= k <= ls@.len(),
            ls@.len() == lsv.len(),
            ls.deep_view() == lsv,
            spec_list_ids(text@) == match ids_of_lines(lsv.skip(k as int)) {
                None => None::<Seq<Seq<char>>>,
                Some(rest) => Some(ids.deep_view() + rest),
            },
        decreases ls@.len() - k,
    {
        let l = ls[k];
        let ghost prev_ids = ids.deep_view();
        proof {
            assert(ls@[k as int]@ == lsv[k as int]);
            assert(lsv.skip(k as int)[0] == lsv[k as int]);
            assert(lsv.skip(k as int).drop_first() =~= lsv.skip(k + 1));
            reveal_strlit(" - ");
        }
        if !l.is_empty() {
            let i: usize = match find_pattern(l, " - ") {
                None => {
                    return None;
                },
                Some(i) => i,
            };
            let id = trim(l.substring_char(0, i));
            proof {
                assert(l@.subrange(0, i as int) =~= l@.take(i as int));
            }
            ids.push(id.to_owned());
            proof {
                assert(ids.deep_view() =~= prev_ids.push(trim_of(lsv[k as int].take(i as int))));
                if ids_of_lines(lsv.skip(k + 1)) is Some {
                    let rest = ids_of_lines(lsv.skip(k + 1))->Some_0;
                    assert(ids.deep_view() + rest =~= prev_ids + (seq![
                        trim_of(lsv[k as int].take(i as int)),
                    ] + rest));
                }
            }
        }
        k = k + 1;
    }
    proof {
        assert(lsv.skip(k as int) =~= Seq::<Seq<char>>::empty());
        assert(ids.deep_view() + Seq::<Seq<char>>::empty() =~= ids.deep_view());
    }
    Some(ids)
}

/// The all-or-nothing assembly of a listing: every looked-up record, in
/// listing order, or nothing as soon as one lookup came back empty.
pub open spec fn spec_collect(infos: Seq<Option<PluginView>>) -> Option<Seq<PluginView>>
    decreases infos.len(),
{
    if infos.len() == 0 {
        Some(Seq::empty())
    } else {
        match infos[0] {
            None => None,
            Some(p) => match spec_collect(infos.drop_first()) {
                None => None,
                Some(rest) => Some(seq![p] + rest),
            },
        }
    }
}

fn clone_plugin(p: &Plugin) -> (r: Plugin)
    ensures
        r@ == p@,
{
    let description = match &p.description {
        Some(d) => Some(d.clone()),
        None => None,
    };
    Plugin { id: p.id.clone(), name: p.name.clone(), description }
}

/// Assembles the outcome of a directory listing from the per-id lookups, as
/// [`spec_collect`] names it: the catalogue in lookup order when every
/// lookup resolved, and nothing when any one of them failed, so that a
/// truncated catalogue is never presented.
pub fn collect_listing(infos: &Vec<Option<Plugin>>) -> (r: Option<PluginList>)
    ensures
        match r {
            Some(pl) => spec_collect(infos.deep_view()) == Some(pl.plugins.deep_view()),
            None => spec_collect(infos.deep_view()) is None,
        },
{
    let ghost iv = infos.deep_view();
    let mut plugins: Vec<Plugin> = Vec::new();
    let mut k: usize = 0;
    proof {
        assert(iv.skip(0) =~= iv);
    }
    while k < infos.len()
        invariant
            k <= infos@.len(),
            iv == infos.deep_view(),
            iv.len() == infos@.len(),
            spec_collect(iv) == match spec_collect(iv.skip(k as int)) {
                None => None::<Seq<PluginView>>,
                Some(rest) => Some(plugins.deep_view() + rest),
            },
        decreases infos@.len() - k,
    {
        let ghost prev = plugins.deep_view();
        proof {
            assert(iv.skip(k as int)[0] == iv[k as int]);
            assert(iv.skip(k as int).drop_first() =~= iv.skip(k + 1));
            assert(iv[k as int] == infos@[k as int].deep_view());
        }
        match &infos[k] {
            None => {
                return None;
            },
            Some(p) => {
                plugins.push(clone_plugin(p));
                proof {
                    assert(plugins.deep_view() =~= prev.push(p@));
                    if spec_collect(iv.skip(k + 1)) is Some {
                        let rest = spec_collect(iv.skip(k + 1))->Some_0;
                        assert(plugins.deep_view() + rest =~= prev + (seq![p@] + rest));
                    }
                }
            },
        }
        k = k + 1;
    }
    proof {
        assert(iv.skip(k as int) =~= Seq::<Option<PluginView>>::empty());
        assert(plugins.deep_view() + Seq::<PluginView>::empty() =~= plugins.deep_view());
    }
    Some(PluginList { plugins })
}

proof fn lemma_ids_of_lines_complete(ls: Seq<Seq<char>>)
    requires
        forall|k: int|
            0 <= k < ls.len() ==> (#[trigger] ls[k]).len() > 0 && contains_sub(ls[k], " - "@),
    ensures
        ids_of_lines(ls) is Some,
        ids_of_lines(ls)->Some_0.len() == ls.len(),
        forall|k: int|
            0 <= k < ls.len() ==> ids_of_lines(ls)->Some_0[k] == trim_of(
                (#[trigger] ls[k]).take(find_sub(ls[k], " - "@)->Some_0),
            ),
    decreases ls.len(),
{
    if ls.len() > 0 {
        lemma_ids_of_lines_complete(ls.drop_first());
        assert forall|k: int| 0 <= k < ls.len() implies ids_of_lines(ls)->Some_0[k] == trim_of(
            (#[trigger] ls[k]).take(find_sub(ls[k], " - "@)->Some_0),
        ) by {
            if k > 0 {
                assert(ls.drop_first()[k - 1] == ls[k]);
            }
        }
    }
}

/// A well-formed directory reply—a header line followed by non-empty lines
/// that each carry the `" - "` separator—always decodes, to exactly one id
/// per line after the header, in reply order.
pub proof fn lemma_listing_complete(text: Seq<char>)
    requires
        lines_of(text).len() > 0,
        forall|k: int|
            1 <= k < lines_of(text).len() ==> (#[trigger] lines_of(text)[k]).len() > 0
                && contains_sub(lines_of(text)[k], " - "@),
    ensures
        spec_list_ids(text) is Some,
        spec_list_ids(text)->Some_0.len() == lines_of(text).len() - 1,
        forall|k: int|
            0 <= k < lines_of(text).len() - 1 ==> spec_list_ids(text)->Some_0[k] == trim_of(
                (#[trigger] lines_of(text)[k + 1]).take(
                    find_sub(lines_of(text)[k + 1], " - "@)->Some_0,
                ),
            ),
{
    let tail = lines_of(text).skip(1);
    assert forall|k: int| 0 <= k < tail.len() implies (#[trigger] tail[k]).len() > 0
        && contains_sub(tail[k], " - "@) by {
        assert(tail[k] == lines_of(text)[k + 1]);
    }
    lemma_ids_of_lines_complete(tail);
    assert forall|k: int| 0 <= k < lines_of(text).len() - 1 implies spec_list_ids(
        text,
    )->Some_0[k] == trim_of(
        (#[trigger] lines_of(text)[k + 1]).take(find_sub(lines_of(text)[k + 1], " - "@)->Some_0),
    ) by {
        assert(tail[k] == lines_of(text)[k + 1]);
    }
}

/// When every id of a listing resolved to a record, the assembled catalogue
/// holds exactly those records, in listing order.
pub proof fn lemma_collect_complete(infos: Seq<Option<PluginView>>)
    requires
        forall|k: int| 0 <= k < infos.len() ==> (#[trigger] infos[k]) is Some,
    ensures
        spec_collect(infos) is Some,
        spec_collect(infos)->Some_0.len() == infos.len(),
        forall|k: int|
            0 <= k < infos.len() ==> spec_collect(infos)->Some_0[k] == (
            #[trigger] infos[k])->Some_0,
    decreases infos.len(),
{
    if infos.len() > 0 {
        lemma_collect_complete(infos.drop_first());
        assert forall|k: int| 0 <= k < infos.len() implies spec_collect(infos)->Some_0[k] == (
        #[trigger] infos[k])->Some_0 by {
            if k > 0 {
                assert(infos.drop_first()[k - 1] == infos[k]);
            }
        }
    }
}

/// One full directory round trip: a listing reply whose lines after the
/// header each carry the separator, together with one resolved lookup per
/// id, yields exactly one record per line, in reply order.
pub proof fn lemma_directory_complete(text: Seq<char>, infos: Seq<Option<PluginView>>)
    requires
        lines_of(text).len() > 0,
        forall|k: int|
            1 <= k < lines_of(text).len() ==> (#[trigger] lines_of(text)[k]).len() > 0
                && contains_sub(lines_of(text)[k], " - "@),
        infos.len() == lines_of(text).len() - 1,
        forall|k: int| 0 <= k < infos.len() ==> (#[trigger] infos[k]) is Some,
    ensures
        spec_list_ids(text) is Some,
        spec_list_ids(text)->Some_0.len() == infos.len(),
        spec_collect(infos) is Some,
        spec_collect(infos)->Some_0.len() == infos.len(),
        forall|k: int|
            0 <= k < infos.len() ==> spec_collect(infos)->Some_0[k] == (
            #[trigger] infos[k])->Some_0,
{
    lemma_listing_complete(text);
    lemma_collect_complete(infos);
}

proof fn lemma_ids_of_lines_malformed(ls: Seq<Seq<char>>, k: int)
    requires
        0 <= k < ls.len(),
        ls[k].len() > 0,
        !contains_sub(ls[k], " - "@),
    ensures
        ids_of_lines(ls) is None,
    decreases ls.len(),
{
    if k > 0 {
        assert(ls.drop_first()[k - 1] == ls[k]);
        lemma_ids_of_lines_malformed(ls.drop_first(), k - 1);
    }
}

/// One non-empty line after the header that lacks the `" - "` separator
/// fails the whole listing: no partial catalogue is ever produced.
pub proof fn lemma_listing_malformed(text: Seq<char>, k: int)
    requires
        1 <= k < lines_of(text).len(),
        lines_of(text)[k].len() > 0,
        !contains_sub(lines_of(text)[k], " - "@),
    ensures
        spec_list_ids(text) is None,
{
    let tail = lines_of(text).skip(1);
    assert(tail[k - 1] == lines_of(text)[k]);
    lemma_ids_of_lines_malformed(tail, k - 1);
}

/// An info reply without a name line—fewer than two lines, or a second line
/// without `": "`—decodes to nothing.
pub proof fn lemma_info_needs_name(text: Seq<char>)
    requires
        lines_of(text).len() < 2 || name_of_line(lines_of(text)[1]) is None,
    ensures
        spec_plugin_info(text) is None,
{
}

proof fn lemma_desc_of_lines_absent(ls: Seq<Seq<char>>)
    requires
        forall|k: int|
            0 <= k < ls.len() ==> contains_sub(#[trigger] ls[k], ": "@) && trim_of(
                ls[k].take(find_sub(ls[k], ": "@)->Some_0),
            ) != "Description"@,
    ensures
        desc_of_lines(ls) == Some(None::<Seq<char>>),
    decreases ls.len(),
{
    if ls.len() > 0 {
        assert forall|k: int| 0 <= k < ls.drop_first().len() implies contains_sub(
            #[trigger] ls.drop_first()[k],
            ": "@,
        ) && trim_of(
            ls.drop_first()[k].take(find_sub(ls.drop_first()[k], ": "@)->Some_0),
        ) != "Description"@ by {
            assert(ls.drop_first()[k] == ls[k + 1]);
        }
        lemma_desc_of_lines_absent(ls.drop_first());
    }
}

/// An info reply whose id and name lines decode and whose further lines are
/// well-formed pairs, none keyed `Description`, decodes to a record with an
/// absent description rather than failing.
pub proof fn lemma_info_without_description(text: Seq<char>)
    requires
        lines_of(text).len() >= 2,
        id_of_header(lines_of(text)[0]) is Some,
        name_of_line(lines_of(text)[1]) is Some,
        forall|k: int|
            2 <= k < lines_of(text).len() ==> contains_sub(#[trigger] lines_of(text)[k], ": "@)
                && trim_of(
                lines_of(text)[k].take(find_sub(lines_of(text)[k], ": "@)->Some_0),
            ) != "Description"@,
    ensures
        spec_plugin_info(text) is Some,
        spec_plugin_info(text)->Some_0.description is None,
        spec_plugin_info(text)->Some_0.id == id_of_header(lines_of(text)[0])->Some_0,
        spec_plugin_info(text)->Some_0.name == name_of_line(lines_of(text)[1])->Some_0,
{
    let tail = lines_of(text).skip(2);
    assert forall|k: int| 0 <= k < tail.len() implies contains_sub(#[trigger] tail[k], ": "@)
        && trim_of(tail[k].take(find_sub(tail[k], ": "@)->Some_0)) != "Description"@ by {
        assert(tail[k] == lines_of(text)[k + 2]);
    }
    lemma_desc_of_lines_absent(tail);
}

/// The decode step of a directory listing: an exchange without output
/// means the remote offers no directory (absent, not an error); an
/// exchange with output is decoded against the listing grammar.
pub fn decode_plugin_list(response: &ChatResponse) -> (r: Option<Vec<String>>)
    ensures
        response.output is None ==> r is None,
        response.output matches Some(o) ==> r.deep_view() == spec_list_ids(o.text@),
{
    match &response.output {
        None => None,
        Some(output) => parse_plugin_list_ids(output.text.as_str()),
    }
}

/// The decode step of one plugin lookup: an exchange without output is
/// absent, and an exchange with output is decoded against the info
/// grammar.
pub fn decode_plugin_info(response: &ChatResponse) -> (r: Option<Plugin>)
    ensures
        response.output is None ==> r is None,
        response.output matches Some(o) ==> r.deep_view() == spec_plugin_info(o.text@),
{
    match &response.output {
        None => None,
        Some(output) => parse_plugin_info(output.text.as_str()),
    }
}

} // verus!
