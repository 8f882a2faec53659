//! The controlled mapper's reading of intermediate records: what a mapper input holds,
//! its records, and the playable episodes a video record lists in its play fields.

use vstd::prelude::*;

use crate::effect::{EffectInput, EffectOutput, QuickJsOutput};
use crate::json::{text_field_spec, JsonValue};
use crate::mapper_fields::{play_from, play_from_keys, play_url, play_url_keys};
use crate::text::{
    char_views, chars_of, find_char_from, index_of, lemma_index_of_bounds, split_chars, split_on,
    string_from_chars, sub_chars, trim, trim_chars,
};

verus! {

/// The records of a mapper input: the elements of an array, or the value itself.
pub open spec fn records_of(value: JsonValue) -> Seq<JsonValue> {
    match value {
        JsonValue::Array(items) => items@,
        _ => seq![value],
    }
}

/// The records of a mapper input, in order: the elements of an array, or the value itself.
pub fn records<'a>(value: &'a JsonValue) -> (r: Vec<&'a JsonValue>)
    ensures
        r@.len() == records_of(*value).len(),
        forall|i: int| 0 <= i < r@.len() ==> *(#[trigger] r@[i]) == records_of(*value)[i],
{
    let mut r: Vec<&'a JsonValue> = Vec::new();
    match value {
        JsonValue::Array(items) => {
            let mut i: usize = 0;
            while i < items.len()
                invariant
                    i <= items@.len(),
                    r@.len() == i,
                    forall|j: int| 0 <= j < i ==> *(#[trigger] r@[j]) == items@[j],
                decreases items@.len() - i,
            {
                r.push(&items[i]);
                i = i + 1;
            }
        },
        _ => {
            r.push(value);
        },
    }
    r
}

/// What a mapper maps: the JSON text a QuickJS effect returned, or the records an
/// extraction effect produced.
#[derive(Debug)]
pub enum MapperInput<'a> {
    /// JSON text returned by a QuickJS effect.
    JsonText(&'a String),
    /// Records produced by an extraction effect.
    Records(&'a Vec<JsonValue>),
}

/// Why a mapper cannot use its input, or `None` where it can: a mapper needs the JSON
/// output of an upstream QuickJS effect or the records of an extraction.
pub open spec fn mapper_input_refusal(input: EffectInput) -> Option<&'static str> {
    match input {
        EffectInput::Intent(_) => Some("Mapper 需要 JSON 上游输出"),
        EffectInput::Output(o) => match o {
            EffectOutput::QuickJs(QuickJsOutput::Json(_)) => None,
            EffectOutput::QuickJs(QuickJsOutput::Raw(_)) => Some("Mapper 收到非 JSON QuickJS 输出"),
            EffectOutput::QuickJs(QuickJsOutput::Error(_)) => Some("Mapper 收到失败的 QuickJS 输出"),
            EffectOutput::Extract(_) => None,
            EffectOutput::Http(_) => Some("Mapper 不能直接消费 HTTP 响应"),
            EffectOutput::Failure(_) => Some("Mapper 收到失败的 effect 输出"),
        },
    }
}

/// The value a mapper maps from its upstream input, or why it cannot.
pub fn mapper_input<'a>(input: &'a EffectInput) -> (r: Result<MapperInput<'a>, &'static str>)
    ensures
        mapper_input_refusal(*input) matches Some(m) ==> r == Err::<MapperInput<'a>, &'static str>(m),
        mapper_input_refusal(*input) is None ==> match r {
            Ok(MapperInput::JsonText(t)) => *input matches EffectInput::Output(
                EffectOutput::QuickJs(QuickJsOutput::Json(text)),
            ) && text == *t,
            Ok(MapperInput::Records(rs)) => *input matches EffectInput::Output(EffectOutput::Extract(x))
                && x.records == *rs,
            Err(_) => false,
        },
{
    match input {
        EffectInput::Intent(_) => Err("Mapper 需要 JSON 上游输出"),
        EffectInput::Output(output) => match output {
            EffectOutput::QuickJs(QuickJsOutput::Json(text)) => Ok(MapperInput::JsonText(text)),
            EffectOutput::QuickJs(QuickJsOutput::Raw(_)) => Err("Mapper 收到非 JSON QuickJS 输出"),
            EffectOutput::QuickJs(QuickJsOutput::Error(_)) => Err("Mapper 收到失败的 QuickJS 输出"),
            EffectOutput::Extract(x) => Ok(MapperInput::Records(&x.records)),
            EffectOutput::Http(_) => Err("Mapper 不能直接消费 HTTP 响应"),
            EffectOutput::Failure(_) => Err("Mapper 收到失败的 effect 输出"),
        },
    }
}

/// The pieces of every part split again at `sep`, in order.
pub open spec fn flat_split(parts: Seq<Seq<char>>, sep: Seq<char>) -> Seq<Seq<char>>
    decreases parts.len(),
{
    if parts.len() == 0 {
        Seq::empty()
    } else {
        flat_split(parts.drop_last(), sep) + split_on(parts.last(), sep)
    }
}

/// The parts that are not empty, in order.
pub open spec fn non_empty_parts(parts: Seq<Seq<char>>) -> Seq<Seq<char>>
    decreases parts.len(),
{
    if parts.len() == 0 {
        Seq::empty()
    } else if parts.last().len() > 0 {
        non_empty_parts(parts.drop_last()).push(parts.last())
    } else {
        non_empty_parts(parts.drop_last())
    }
}

fn copy_chars(v: &Vec<char>) -> (c: Vec<char>)
    ensures
        c@ == v@,
{
    let c = sub_chars(v, 0, v.len());
    assert(v@.subrange(0, v@.len() as int) =~= v@);
    c
}

fn flat_split_chars(parts: &Vec<Vec<char>>, sep: &Vec<char>) -> (out: Vec<Vec<char>>)
    requires
        sep@.len() > 0,
    ensures
        char_views(out@) =~~= flat_split(char_views(parts@), sep@),
{
    let mut out: Vec<Vec<char>> = Vec::new();
    let mut k: usize = 0;
    proof {
        assert(char_views(parts@).take(0) =~= Seq::<Seq<char>>::empty());
    }
    while k < parts.len()
        invariant
            k <= parts@.len(),
            sep@.len() > 0,
            char_views(out@) =~~= flat_split(char_views(parts@).take(k as int), sep@),
        decreases parts@.len() - k,
    {
        let pieces = split_chars(&parts[k], sep);
        let ghost before = char_views(out@);
        let mut j: usize = 0;
        while j < pieces.len()
            invariant
                j <= pieces@.len(),
                char_views(out@) =~~= before + char_views(pieces@).take(j as int),
            decreases pieces@.len() - j,
        {
            let piece = copy_chars(&pieces[j]);
            let ghost prev = char_views(out@);
            out.push(piece);
            proof {
                assert(char_views(out@) =~~= prev.push(pieces@[j as int]@));
                assert(char_views(pieces@).take(j + 1) =~~= char_views(pieces@).take(j as int).push(pieces@[j as int]@));
            }
            j = j + 1;
        }
        proof {
            let taken = char_views(parts@).take(k + 1);
            assert(taken.drop_last() =~~= char_views(parts@).take(k as int));
            assert(taken.last() == parts@[k as int]@);
            assert(char_views(pieces@).take(pieces@.len() as int) =~~= char_views(pieces@));
        }
        k = k + 1;
    }
    proof {
        assert(char_views(parts@).take(parts@.len() as int) =~~= char_views(parts@));
    }
    out
}

fn non_empty_chars(parts: &Vec<Vec<char>>) -> (out: Vec<Vec<char>>)
    ensures
        char_views(out@) =~~= non_empty_parts(char_views(parts@)),
{
    let mut out: Vec<Vec<char>> = Vec::new();
    let mut k: usize = 0;
    proof {
        assert(char_views(parts@).take(0) =~= Seq::<Seq<char>>::empty());
    }
    while k < parts.len()
        invariant
            k <= parts@.len(),
            char_views(out@) =~~= non_empty_parts(char_views(parts@).take(k as int)),
        decreases parts@.len() - k,
    {
        let ghost prev = char_views(out@);
        let taken = Ghost(char_views(parts@).take(k + 1));
        proof {
            assert(taken@.drop_last() =~~= char_views(parts@).take(k as int));
            assert(taken@.last() == parts@[k as int]@);
        }
        if parts[k].len() > 0 {
            let piece = copy_chars(&parts[k]);
            out.push(piece);
            proof {
                assert(char_views(out@) =~~= prev.push(parts@[k as int]@));
            }
        }
        k = k + 1;
    }
    proof {
        assert(char_views(parts@).take(parts@.len() as int) =~~= char_views(parts@));
    }
    out
}

/// A playable episode of a video record.
#[derive(Debug, Clone, PartialEq, Eq)]
pub struct PlayEntry {
    /// Name of the play line it belongs to.
    pub line: String,
    /// Position of the episode within its line, counting from 1.
    pub position: usize,
    /// Episode title.
    pub title: String,
    /// Stream URL.
    pub url: String,
}

/// A play entry as plain values: line name, position, title and URL.
pub open spec fn entry_view(e: PlayEntry) -> (Seq<char>, int, Seq<char>, Seq<char>) {
    (e.line@, e.position as int, e.title@, e.url@)
}

/// Line names listed in a record's play-from text: the text split at `,`, each part split
/// again at `$$$`.
pub open spec fn line_names(play_from: Seq<char>) -> Seq<Seq<char>> {
    flat_split(split_on(play_from, ","@), "$$$"@)
}

/// The play lines of a record's play-URL text: the text split at `###`, each part split
/// again at `$$$`, empty parts left out.
pub open spec fn play_lines(play_url: Seq<char>) -> Seq<Seq<char>> {
    non_empty_parts(flat_split(split_on(play_url, "###"@), "$$$"@))
}

/// The episodes of a play line: the line split at `#`, empty parts left out.
pub open spec fn line_episodes(line: Seq<char>) -> Seq<Seq<char>> {
    non_empty_parts(split_on(line, "#"@))
}

/// The name of line `li`: its listed name, trimmed, where that is not blank; otherwise
/// `default`.
pub open spec fn line_name(names: Seq<Seq<char>>, li: int) -> Seq<char> {
    if 0 <= li < names.len() && trim(names[li]).len() > 0 {
        trim(names[li])
    } else {
        "default"@
    }
}

/// The entry of episode `index` (from 0) of a line: the text before its first `$` is the
/// title and the text after it the URL, both trimmed; an episode without `$`, or with a
/// blank URL, gives none.
pub open spec fn episode_entry(line: Seq<char>, episode: Seq<char>, index: int) -> Option<
    (Seq<char>, int, Seq<char>, Seq<char>),
> {
    let d = index_of(episode, '$');
    if d >= episode.len() {
        None
    } else if trim(episode.subrange(d + 1, episode.len() as int)).len() == 0 {
        None
    } else {
        Some((line, index + 1, trim(episode.subrange(0, d)), trim(episode.subrange(d + 1, episode.len() as int))))
    }
}

/// The entries of the first `n` episodes of a line, in order.
pub open spec fn episode_entries(line: Seq<char>, episodes: Seq<Seq<char>>, n: int) -> Seq<
    (Seq<char>, int, Seq<char>, Seq<char>),
>
    decreases n,
{
    if n <= 0 {
        Seq::empty()
    } else {
        let before = episode_entries(line, episodes, n - 1);
        match episode_entry(line, episodes[n - 1], n - 1) {
            Some(e) => before.push(e),
            None => before,
        }
    }
}

/// The entries of the first `m` play lines, line by line.
pub open spec fn lines_entries(lines: Seq<Seq<char>>, names: Seq<Seq<char>>, m: int) -> Seq<
    (Seq<char>, int, Seq<char>, Seq<char>),
>
    decreases m,
{
    if m <= 0 {
        Seq::empty()
    } else {
        let episodes = line_episodes(lines[m - 1]);
        lines_entries(lines, names, m - 1) + episode_entries(line_name(names, m - 1), episodes, episodes.len() as int)
    }
}

/// The playable episodes that a play-from text and a play-URL text list.
pub open spec fn play_entries_of(play_from: Seq<char>, play_url: Seq<char>) -> Seq<
    (Seq<char>, int, Seq<char>, Seq<char>),
> {
    let lines = play_lines(play_url);
    lines_entries(lines, line_names(play_from), lines.len() as int)
}

/// The entries as plain values.
pub open spec fn entry_views(entries: Seq<PlayEntry>) -> Seq<(Seq<char>, int, Seq<char>, Seq<char>)> {
    entries.map_values(|e: PlayEntry| entry_view(e))
}

fn name_of_line(names: &Vec<Vec<char>>, li: usize) -> (name: Vec<char>)
    ensures
        name@ == line_name(char_views(names@), li as int),
{
    if li < names.len() {
        let t = trim_chars(&names[li]);
        if t.len() > 0 {
            return t;
        }
    }
    chars_of("default")
}

/// Reads the playable episodes listed by a play-from text (line names) and a play-URL
/// text (lines of `#`-separated `title$url` episodes), line by line and in order.
pub fn play_entries(play_from: &str, play_url: &str) -> (entries: Vec<PlayEntry>)
    ensures
        entry_views(entries@) =~~= play_entries_of(play_from@, play_url@),
{
    proof {
        reveal_strlit(",");
        reveal_strlit("$$$");
        reveal_strlit("###");
        reveal_strlit("#");
    }
    let names = flat_split_chars(&split_chars(&chars_of(play_from), &chars_of(",")), &chars_of("$$$"));
    let lines = non_empty_chars(&flat_split_chars(&split_chars(&chars_of(play_url), &chars_of("###")), &chars_of("$$$")));
    let ghost line_seq = char_views(lines@);
    let ghost name_seq = char_views(names@);
    let mut entries: Vec<PlayEntry> = Vec::new();
    let mut li: usize = 0;
    while li < lines.len()
        invariant
            li <= lines@.len(),
            line_seq == char_views(lines@),
            name_seq == char_views(names@),
            line_seq =~~= play_lines(play_url@),
            name_seq =~~= line_names(play_from@),
            entry_views(entries@) =~~= lines_entries(line_seq, name_seq, li as int),
        decreases lines@.len() - li,
    {
        let name = name_of_line(&names, li);
        proof {
            reveal_strlit("#");
        }
        let episodes = non_empty_chars(&split_chars(&lines[li], &chars_of("#")));
        let ghost before = entry_views(entries@);
        let ghost ep_seq = char_views(episodes@);
        let mut e: usize = 0;
        while e < episodes.len()
            invariant
                e <= episodes@.len(),
                ep_seq == char_views(episodes@),
                name@ == line_name(name_seq, li as int),
                entry_views(entries@) =~~= before + episode_entries(name@, ep_seq, e as int),
            decreases episodes@.len() - e,
        {
            let episode = &episodes[e];
            let d = find_char_from(episode, '$', 0);
            proof {
                assert(episode@.skip(0) =~= episode@);
                lemma_index_of_bounds(episode@, '$');
                assert(ep_seq[e as int] == episode@);
            }
            let ghost prev = entry_views(entries@);
            if d < episode.len() {
                let url = trim_chars(&sub_chars(episode, d + 1, episode.len()));
                if url.len() > 0 {
                    let title = trim_chars(&sub_chars(episode, 0, d));
                    entries.push(
                        PlayEntry {
                            line: string_from_chars(&name),
                            position: e + 1,
                            title: string_from_chars(&title),
                            url: string_from_chars(&url),
                        },
                    );
                    proof {
                        assert(entry_views(entries@) =~~= prev.push(
                            (name@, e + 1, trim(episode@.subrange(0, d as int)), trim(
                                episode@.subrange(d + 1, episode@.len() as int),
                            )),
                        ));
                    }
                }
            }
            e = e + 1;
        }
        proof {
            assert(ep_seq =~~= line_episodes(line_seq[li as int]));
        }
        li = li + 1;
    }
    entries
}

/// Every episode read from the play fields has a URL that is not empty (it was trimmed and
/// found not blank) and a position of at least 1.
pub proof fn law_play_entries_have_urls(play_from: Seq<char>, play_url: Seq<char>, k: int)
    requires
        0 <= k < play_entries_of(play_from, play_url).len(),
    ensures
        play_entries_of(play_from, play_url)[k].3.len() > 0,
        play_entries_of(play_from, play_url)[k].1 >= 1,
{
    let lines = play_lines(play_url);
    lemma_lines_entries_have_urls(lines, line_names(play_from), lines.len() as int);
}

proof fn lemma_episode_entries_have_urls(line: Seq<char>, episodes: Seq<Seq<char>>, n: int)
    ensures
        forall|k: int|
            0 <= k < episode_entries(line, episodes, n).len() ==> (#[trigger] episode_entries(line, episodes, n)[k]).3.len()
                > 0 && episode_entries(line, episodes, n)[k].1 >= 1,
    decreases n,
{
    if n > 0 {
        lemma_episode_entries_have_urls(line, episodes, n - 1);
        let before = episode_entries(line, episodes, n - 1);
        let all = episode_entries(line, episodes, n);
        assert forall|k: int| 0 <= k < all.len() implies (#[trigger] all[k]).3.len() > 0 && all[k].1 >= 1 by {
            if k < before.len() {
                assert(all[k] == before[k]);
            }
        }
    }
}

proof fn lemma_lines_entries_have_urls(lines: Seq<Seq<char>>, names: Seq<Seq<char>>, m: int)
    ensures
        forall|k: int|
            0 <= k < lines_entries(lines, names, m).len() ==> (#[trigger] lines_entries(lines, names, m)[k]).3.len() > 0
                && lines_entries(lines, names, m)[k].1 >= 1,
    decreases m,
{
    if m > 0 {
        lemma_lines_entries_have_urls(lines, names, m - 1);
        let episodes = line_episodes(lines[m - 1]);
        lemma_episode_entries_have_urls(line_name(names, m - 1), episodes, episodes.len() as int);
        let before = lines_entries(lines, names, m - 1);
        let added = episode_entries(line_name(names, m - 1), episodes, episodes.len() as int);
        assert forall|k: int| 0 <= k < (before + added).len() implies (#[trigger] (before + added)[k]).3.len() > 0
            && (before + added)[k].1 >= 1 by {
            if k < before.len() {
                assert((before + added)[k] == before[k]);
            } else {
                assert((before + added)[k] == added[k - before.len()]);
            }
        }
    }
}

/// The playable episodes of a video record: none without a play-URL text; otherwise those
/// its play-URL text lists, under the line names of its play-from text (empty where it has
/// none).
pub fn record_play_entries(record: &JsonValue) -> (entries: Vec<PlayEntry>)
    ensures
        text_field_spec(*record, play_url_keys()) is None ==> entries@.len() == 0,
        text_field_spec(*record, play_url_keys()) matches Some(u) ==> entry_views(entries@) =~~= play_entries_of(
            match text_field_spec(*record, play_from_keys()) {
                Some(f) => f,
                None => Seq::empty(),
            },
            u,
        ),
{
    match play_url(record) {
        None => Vec::new(),
        Some(url) => {
            let from = match play_from(record) {
                Some(from) => from,
                None => string_from_chars(&Vec::new()),
            };
            proof {
                assert(from@ == match text_field_spec(*record, play_from_keys()) {
                    Some(f) => f,
                    None => Seq::<char>::empty(),
                });
            }
            play_entries(from.as_str(), url.as_str())
        },
    }
}

} // verus!
