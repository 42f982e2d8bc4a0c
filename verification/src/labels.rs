use vstd::prelude::*;
use crate::text::{decimal, push_char, push_decimal, trim, trimmed};

verus! {

/// Whether `pattern` occurs in `s` at position `i`.
pub open spec fn occurs_at(s: Seq<char>, pattern: Seq<char>, i: int) -> bool {
    0 <= i && i + pattern.len() <= s.len() && s.subrange(i, i + pattern.len()) == pattern
}

/// Where `pattern` first occurs in `s`.
pub open spec fn first_occurrence(s: Seq<char>, pattern: Seq<char>) -> Option<int> {
    if exists|i: int| #[trigger] occurs_at(s, pattern, i) {
        Some(choose|i: int| #[trigger] occurs_at(s, pattern, i) && forall|k: int| 0 <= k < i ==> !#[trigger] occurs_at(s, pattern, k))
    } else {
        None
    }
}

/// `s` up to the first occurrence of `pattern`, or all of it.
pub open spec fn before(s: Seq<char>, pattern: Seq<char>) -> Seq<char> {
    match first_occurrence(s, pattern) {
        Some(i) => s.take(i),
        None => s,
    }
}

/// The song's title without what follows ` -` or `(` (versions, remasters,
/// featured artists), trimmed; the whole name, trimmed, when nothing would
/// be left.
pub open spec fn song_title(name: Seq<char>) -> Seq<char> {
    let short = trimmed(before(before(name, seq![' ', '-']), seq!['(']));
    if short.len() == 0 {
        trimmed(name)
    } else {
        short
    }
}

fn prefix_before<'a>(text: &'a str, pattern: &str) -> (prefix: &'a str)
    ensures
        prefix@ == before(text@, pattern@),
{
    let len = text.unicode_len();
    let plen = pattern.unicode_len();
    let mut i: usize = 0;
    while plen <= len && i <= len - plen
        invariant
            len == text@.len(),
            plen == pattern@.len(),
            0 <= i,
            plen <= len ==> i <= len - plen + 1,
            forall|k: int| 0 <= k < i ==> !#[trigger] occurs_at(text@, pattern@, k),
        decreases len - i,
    {
        let mut j: usize = 0;
        while j < plen && text.get_char(i + j) == pattern.get_char(j)
            invariant
                len == text@.len(),
                plen == pattern@.len(),
                i + plen <= len,
                0 <= j <= plen,
                forall|k: int| 0 <= k < j ==> text@[i + k] == pattern@[k],
            decreases plen - j,
        {
            j += 1;
        }
        if j == plen {
            proof {
                let s = text@;
                assert(s.subrange(i as int, i + plen) =~= pattern@);
                assert(occurs_at(s, pattern@, i as int));
                let c = choose|c: int| #[trigger] occurs_at(s, pattern@, c) && forall|k: int| 0 <= k < c ==> !#[trigger] occurs_at(s, pattern@, k);
                if c < i {
                    assert(!occurs_at(s, pattern@, c));
                } else if c > i {
                    assert(!occurs_at(s, pattern@, i as int));
                }
            }
            return text.substring_char(0, i);
        }
        proof {
            assert(text@.subrange(i as int, i + plen)[j as int] == text@[i + j]);
            assert(text@.subrange(i as int, i + plen) != pattern@);
            assert(!occurs_at(text@, pattern@, i as int));
        }
        i += 1;
    }
    proof {
        assert forall|k: int| #[trigger] occurs_at(text@, pattern@, k) implies false by {
            assert(k < i);
        }
        assert(text@.subrange(0, len as int) =~= text@);
    }
    text.substring_char(0, len)
}

/// The title of a song for the bar, from the track's name.
pub fn song_name(name: &str) -> (title: &str)
    ensures
        title@ == song_title(name@),
{
    let short = trim(prefix_before(prefix_before(name, " -"), "("));
    proof {
        reveal_strlit(" -");
        reveal_strlit("(");
        assert(" -"@ =~= seq![' ', '-']);
        assert("("@ =~= seq!['(']);
    }
    if short.unicode_len() == 0 {
        trim(name)
    } else {
        short
    }
}

/// How long ago, or in how long, a track starts: whole minutes and seconds
/// from a minute on (`"2m5s"`), else rounded seconds (`"42s"`).
pub open spec fn time_label(start_ms: int) -> Seq<char> {
    let ms = if start_ms < 0 { -start_ms } else { start_ms };
    if ms >= 60_000 {
        let seconds = ms / 1000;
        decimal((seconds / 60) as nat) + seq!['m'] + decimal((seconds % 60) as nat) + seq!['s']
    } else {
        decimal(((ms + 500) / 1000) as nat) + seq!['s']
    }
}

/// The details line of a track: its time label, a bullet between thin
/// spaces, and the artist.
pub open spec fn details_line(start_ms: int, artist: Seq<char>) -> Seq<char> {
    time_label(start_ms) + seq!['\u{2004}', '\u{2022}', '\u{2004}'] + artist
}

/// The details line of a track that starts `start_ms` milliseconds from
/// now (negative when it started in the past), by `artist`.
pub fn track_details(start_ms: i64, artist: &str) -> (line: String)
    ensures
        line@ == details_line(start_ms as int, artist@),
{
    let ms: u64 = if start_ms < 0 {
        (-(start_ms + 1)) as u64 + 1
    } else {
        start_ms as u64
    };
    let mut line = String::new();
    if ms >= 60_000 {
        let seconds = ms / 1000;
        push_decimal(&mut line, seconds / 60);
        push_char(&mut line, 'm');
        push_decimal(&mut line, seconds % 60);
        push_char(&mut line, 's');
    } else {
        push_decimal(&mut line, (ms + 500) / 1000);
        push_char(&mut line, 's');
    }
    push_char(&mut line, '\u{2004}');
    push_char(&mut line, '\u{2022}');
    push_char(&mut line, '\u{2004}');
    line.append(artist);
    assert(line@ =~= details_line(start_ms as int, artist@));
    line
}

/// A track's details line reads back to its start time: from a minute on it
/// is a number of minutes, `m`, a number of seconds below sixty, `s`, and
/// together they make the whole seconds between now and the start; under a
/// minute it is the number of seconds nearest to that time, halves rounded
/// up. The time label is followed by the bullet and the artist.
pub proof fn details_read_back(start_ms: int, artist: Seq<char>)
    ensures
        ({
            let ms = if start_ms < 0 { -start_ms } else { start_ms };
            let tail = seq!['\u{2004}', '\u{2022}', '\u{2004}'] + artist;
            &&& ms >= 60_000 ==> exists|m: nat, s: nat|
                #![trigger decimal(m), decimal(s)]
                s < 60 && m * 60 + s == ms / 1000 && details_line(start_ms, artist) == decimal(m) + seq!['m']
                    + decimal(s) + seq!['s'] + tail
            &&& ms < 60_000 ==> exists|r: nat|
                #![trigger decimal(r)]
                r * 1000 <= ms + 500 < r * 1000 + 1000 && details_line(start_ms, artist) == decimal(r) + seq!['s']
                    + tail
        }),
{
    let ms = if start_ms < 0 { -start_ms } else { start_ms };
    let tail = seq!['\u{2004}', '\u{2022}', '\u{2004}'] + artist;
    if ms >= 60_000 {
        let seconds = ms / 1000;
        let m = (seconds / 60) as nat;
        let s = (seconds % 60) as nat;
        assert(details_line(start_ms, artist) =~= decimal(m) + seq!['m'] + decimal(s) + seq!['s'] + tail);
    } else {
        let r = ((ms + 500) / 1000) as nat;
        assert(details_line(start_ms, artist) =~= decimal(r) + seq!['s'] + tail);
    }
}

} // verus!
