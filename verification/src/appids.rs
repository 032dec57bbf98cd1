//! Working with lists of game identifiers: the known-games XML listing,
//! request chunking, and rebuilding a library from an owned-id list.

use vstd::prelude::*;

use crate::models::Game;
use crate::models::OwnedGamesData;
use crate::percent::spec_find_char;
use crate::text::clone_opt_string;
use crate::text::find_sub_at;
use crate::text::spec_find_at;
use crate::text::spec_parse_u32;
use crate::text::parse_digits_u64;

verus! {

// ---------------------------------------------------------------------------
// Whitespace trimming
// ---------------------------------------------------------------------------

/// The whitespace this scanner strips around tag content.
pub open spec fn spec_is_ws(c: char) -> bool {
    c == ' ' || c == '\t' || c == '\n' || c == '\r'
}

/// `s` without leading and trailing whitespace.
pub open spec fn spec_trim(s: Seq<char>) -> Seq<char>
    decreases s.len(),
{
    if s.len() > 0 && spec_is_ws(s[0]) {
        spec_trim(s.drop_first())
    } else if s.len() > 0 && spec_is_ws(s.last()) {
        spec_trim(s.drop_last())
    } else {
        s
    }
}

/// Whether this character is stripped by trimming.
fn is_ws_char(c: char) -> (r: bool)
    ensures
        r == spec_is_ws(c),
{
    c == ' ' || c == '\t' || c == '\n' || c == '\r'
}

/// Read `s[from..to]`, trimmed, as a `u32` numeral.
fn parse_trimmed_u32(s: &str, from: usize, to: usize, len: usize) -> (r: Option<u32>)
    requires
        len == s@.len(),
        from <= to <= len,
    ensures
        r == spec_parse_u32(spec_trim(s@.subrange(from as int, to as int))),
{
    let mut f = from;
    let mut t = to;
    while f < t && is_ws_char(s.get_char(f))
        invariant
            from <= f <= t <= to <= len,
            len == s@.len(),
            spec_trim(s@.subrange(from as int, to as int)) == spec_trim(
                s@.subrange(f as int, t as int),
            ),
        decreases t - f,
    {
        proof {
            assert(s@.subrange(f as int, t as int).drop_first() =~= s@.subrange(f + 1, t as int));
        }
        f += 1;
    }
    while t > f && is_ws_char(s.get_char(t - 1))
        invariant
            from <= f <= t <= to <= len,
            len == s@.len(),
            f == t || !spec_is_ws(s@[f as int]),
            spec_trim(s@.subrange(from as int, to as int)) == spec_trim(
                s@.subrange(f as int, t as int),
            ),
        decreases t - f,
    {
        proof {
            assert(s@.subrange(f as int, t as int).drop_last() =~= s@.subrange(
                f as int,
                t - 1,
            ));
            assert(s@.subrange(f as int, t as int).last() == s@[t - 1]);
        }
        t -= 1;
    }
    proof {
        assert(spec_trim(s@.subrange(f as int, t as int)) == s@.subrange(f as int, t as int));
    }
    parse_u32_range(s, f, t, len)
}

/// Read `s[from..to]` as a `u32` numeral, accepting one leading `+`.
fn parse_u32_range(s: &str, from: usize, to: usize, len: usize) -> (r: Option<u32>)
    requires
        len == s@.len(),
        from <= to <= len,
    ensures
        r == spec_parse_u32(s@.subrange(from as int, to as int)),
{
    let sub_len = to - from;
    let v = if sub_len > 0 && s.get_char(from) == '+' {
        proof {
            assert(s@.subrange(from as int, to as int).drop_first() =~= s@.subrange(
                from + 1,
                to as int,
            ));
        }
        parse_digits_u64(s, from + 1, to, len)
    } else {
        parse_digits_u64(s, from, to, len)
    };
    match v {
        Some(v) => {
            if v <= 0xffff_ffff {
                Some(v as u32)
            } else {
                None
            }
        },
        None => None,
    }
}

// ---------------------------------------------------------------------------
// The known-games XML listing
// ---------------------------------------------------------------------------

/// The identifiers the scan collects from position `pos` on: each
/// `<game …>` tag's content, trimmed and read as a number; `<games>`
/// wrappers and malformed stretches are skipped.
pub open spec fn spec_scan_games(s: Seq<char>, pos: int) -> Seq<u32>
    decreases s.len() - pos,
    when 0 <= pos <= s.len()
    via spec_scan_games_decreases
{
    match spec_find_at(s, "<game"@, pos) {
        None => Seq::empty(),
        Some(start) => {
            let tag_end = start + 5;
            if tag_end < s.len() && s[tag_end] == 's' {
                spec_scan_games(s, tag_end)
            } else {
                match spec_find_char(s, '>', start) {
                    Some(gt) => {
                        let content_start = gt + 1;
                        match spec_find_at(s, "</game>"@, content_start) {
                            Some(close) => {
                                let content = s.subrange(content_start, close);
                                let rest = spec_scan_games(s, close + 7);
                                match spec_parse_u32(spec_trim(content)) {
                                    Some(v) => seq![v] + rest,
                                    None => rest,
                                }
                            },
                            None => spec_scan_games(s, start + 1),
                        }
                    },
                    None => spec_scan_games(s, start + 1),
                }
            }
        },
    }
}

#[via_fn]
proof fn spec_scan_games_decreases(s: Seq<char>, pos: int) {
    reveal_strlit("<game");
    reveal_strlit("</game>");
    crate::text::lemma_find_at_bounds(s, "<game"@, pos);
    match spec_find_at(s, "<game"@, pos) {
        None => {},
        Some(start) => {
            crate::percent::lemma_find_char_bounds(s, '>', start);
            match spec_find_char(s, '>', start) {
                None => {},
                Some(gt) => {
                    crate::text::lemma_find_at_bounds(s, "</game>"@, gt + 1);
                },
            }
        },
    }
}

/// Find the first occurrence of `c` in `s` at or after `from`.
fn find_char_from(s: &str, c: char, from: usize, len: usize) -> (r: Option<usize>)
    requires
        len == s@.len(),
        from <= len,
    ensures
        r matches Some(i) ==> spec_find_char(s@, c, from as int) == Some(i as int) && from <= i
            < len && s@[i as int] == c,
        r is None ==> spec_find_char(s@, c, from as int) is None,
{
    let mut i: usize = from;
    while i < len
        invariant
            from <= i <= len,
            len == s@.len(),
            spec_find_char(s@, c, from as int) == spec_find_char(s@, c, i as int),
        decreases len - i,
    {
        if s.get_char(i) == c {
            return Some(i);
        }
        i += 1;
    }
    None
}

/// Collect every game identifier of the known-games XML listing: the
/// trimmed numeric content of each `<game …>` element, in document order.
pub fn parse_games_xml(xml: &str) -> (r: Vec<u32>)
    ensures
        r@ == spec_scan_games(xml@, 0),
{
    let len = xml.unicode_len();
    let mut r: Vec<u32> = Vec::new();
    let mut pos: usize = 0;
    proof {
        reveal_strlit("<game");
        reveal_strlit("</game>");
    }
    loop
        invariant
            pos <= len,
            len == xml@.len(),
            spec_scan_games(xml@, 0) == r@ + spec_scan_games(xml@, pos as int),
        decreases len - pos,
    {
        proof {
            reveal_strlit("<game");
            reveal_strlit("</game>");
        }
        let ghost scan_here = spec_scan_games(xml@, pos as int);
        match find_sub_at(xml, "<game", pos, len) {
            None => {
                proof {
                    assert(scan_here =~= Seq::<u32>::empty());
                    assert(r@ + scan_here =~= r@);
                }
                return r;
            },
            Some(start) => {
                if start + 5 < len && xml.get_char(start + 5) == 's' {
                    pos = start + 5;
                } else {
                    match find_char_from(xml, '>', start, len) {
                        None => {
                            pos = start + 1;
                        },
                        Some(gt) => {
                            let content_start = gt + 1;
                            match find_sub_at(xml, "</game>", content_start, len) {
                                None => {
                                    pos = start + 1;
                                },
                                Some(close) => {
                                    let parsed = parse_trimmed_u32(xml, content_start, close, len);
                                    let ghost rest = spec_scan_games(xml@, close + 7);
                                    match parsed {
                                        Some(v) => {
                                            proof {
                                                assert(scan_here == seq![v] + rest);
                                                assert(r@.push(v) =~= r@ + seq![v]);
                                                assert((r@ + seq![v]) + rest =~= r@ + (
                                                seq![v] + rest));
                                            }
                                            r.push(v);
                                        },
                                        None => {},
                                    }
                                    pos = close + 7;
                                },
                            }
                        },
                    }
                }
            },
        }
    }
}

// ---------------------------------------------------------------------------
// Request chunking
// ---------------------------------------------------------------------------

/// How many identifiers one owned-games request may carry.
pub const APPID_CHUNK_SIZE: usize = 100;

/// Where chunk `i` of a list of length `n` ends.
pub open spec fn spec_chunk_end(i: int, n: int) -> int {
    if i * 100 + 100 <= n {
        i * 100 + 100
    } else {
        n
    }
}

/// Split an identifier list into request-sized chunks: every chunk but the
/// last holds exactly one hundred identifiers, and together they are the
/// list.
pub fn chunk_appids(appids: &Vec<u32>) -> (r: Vec<Vec<u32>>)
    ensures
        r@.len() == (appids@.len() + 99) / 100,
        forall|i: int|
            0 <= i < r@.len() ==> (#[trigger] r@[i])@ == appids@.subrange(
                i * 100,
                spec_chunk_end(i, appids@.len() as int),
            ),
{
    let len = appids.len();
    let mut r: Vec<Vec<u32>> = Vec::new();
    let mut start: usize = 0;
    while start < len
        invariant
            len == appids@.len(),
            start <= len,
            start as int == (if r@.len() * 100 <= len {
                (r@.len() * 100) as int
            } else {
                len as int
            }),
            r@.len() == 0 || (r@.len() - 1) * 100 < len,
            forall|i: int|
                0 <= i < r@.len() ==> (#[trigger] r@[i])@ == appids@.subrange(
                    i * 100,
                    spec_chunk_end(i, len as int),
                ),
        decreases len - start,
    {
        let end = if len - start > APPID_CHUNK_SIZE {
            start + APPID_CHUNK_SIZE
        } else {
            len
        };
        let mut chunk: Vec<u32> = Vec::new();
        let mut t = start;
        while t < end
            invariant
                start <= t <= end <= len,
                len == appids@.len(),
                chunk@ == appids@.subrange(start as int, t as int),
            decreases end - t,
        {
            proof {
                assert(appids@.subrange(start as int, t + 1) =~= appids@.subrange(
                    start as int,
                    t as int,
                ).push(appids@[t as int]));
            }
            chunk.push(appids[t]);
            t += 1;
        }
        let ghost k = r@.len() as int;
        proof {
            assert(k * 100 == start);
            assert(spec_chunk_end(k, len as int) == end);
        }
        r.push(chunk);
        start = end;
    }
    proof {
        if r@.len() > 0 {
            assert((r@.len() - 1) * 100 < len <= r@.len() * 100);
            assert(r@.len() == (appids@.len() + 99) / 100) by (nonlinear_arith)
                requires
                    (r@.len() - 1) * 100 < appids@.len() <= r@.len() * 100,
            ;
        }
    }
    r
}

// ---------------------------------------------------------------------------
// Merging chunked responses
// ---------------------------------------------------------------------------

/// The games of a list of chunked responses, in order.
pub open spec fn spec_concat_games(chunks: Seq<OwnedGamesData>) -> Seq<Game>
    decreases chunks.len(),
{
    if chunks.len() == 0 {
        Seq::empty()
    } else {
        chunks[0].games@ + spec_concat_games(chunks.drop_first())
    }
}

/// Merge the chunked owned-games responses into one, counting the games
/// that actually arrived.
pub fn merge_owned_chunks(chunks: Vec<OwnedGamesData>) -> (r: OwnedGamesData)
    requires
        spec_concat_games(chunks@).len() <= u32::MAX,
    ensures
        r.games@ == spec_concat_games(chunks@),
        r.game_count == r.games@.len(),
{
    let ghost given = chunks@;
    let mut chunks = chunks;
    let mut acc: Vec<Game> = Vec::new();
    while chunks.len() > 0
        invariant
            spec_concat_games(given) == acc@ + spec_concat_games(chunks@),
        decreases chunks.len(),
    {
        let mut c = chunks.remove(0);
        let ghost remaining = chunks@;
        let ghost acc_before = acc@;
        acc.append(&mut c.games);
        proof {
            assert((acc_before + c.games@) + spec_concat_games(remaining) =~= acc_before + (
            c.games@ + spec_concat_games(remaining)));
        }
    }
    proof {
        assert(spec_concat_games(chunks@) =~= Seq::<Game>::empty());
        assert(acc@ + spec_concat_games(chunks@) =~= acc@);
        assert(acc@ == spec_concat_games(given));
    }
    let n = acc.len();
    OwnedGamesData { game_count: n as u32, games: acc }
}

// ---------------------------------------------------------------------------
// Rebuilding a library from an owned-id list
// ---------------------------------------------------------------------------

/// The first game of the list with this identifier.
pub open spec fn spec_find_game(games: Seq<Game>, appid: u32) -> Option<Game>
    decreases games.len(),
{
    if games.len() == 0 {
        None
    } else if games[0].appid == appid {
        Some(games[0])
    } else {
        spec_find_game(games.drop_first(), appid)
    }
}

/// The library entry an owned identifier denotes: the fetched game's name,
/// total playtime and last-played timestamp when the identifier was
/// fetched, and a bare entry otherwise; recent playtime is not carried
/// over.
pub open spec fn spec_game_for(appid: u32, games: Seq<Game>) -> Game {
    match spec_find_game(games, appid) {
        Some(g) => Game {
            appid,
            name: g.name,
            playtime_forever: g.playtime_forever,
            playtime_2weeks: 0,
            rtime_last_played: g.rtime_last_played,
        },
        None => Game {
            appid,
            name: None,
            playtime_forever: 0,
            playtime_2weeks: 0,
            rtime_last_played: 0,
        },
    }
}

/// Find the first game of the list with this identifier.
fn find_game(games: &Vec<Game>, appid: u32) -> (r: Option<&Game>)
    ensures
        match r {
            Some(g) => spec_find_game(games@, appid) == Some(*g),
            None => spec_find_game(games@, appid) is None,
        },
{
    let n = games.len();
    let mut j: usize = 0;
    proof {
        assert(games@.skip(0) =~= games@);
    }
    while j < n
        invariant
            j <= n,
            n == games@.len(),
            spec_find_game(games@, appid) == spec_find_game(games@.skip(j as int), appid),
        decreases n - j,
    {
        proof {
            assert(games@.skip(j as int)[0] == games@[j as int]);
            assert(games@.skip(j as int).drop_first() =~= games@.skip(j + 1));
        }
        if games[j].appid == appid {
            return Some(&games[j]);
        }
        j += 1;
    }
    None
}

/// Rebuild the library for an externally supplied owned-id list: one entry
/// per identifier, in the list's order, carrying over what a fetch
/// returned for it.
pub fn games_for_appids(appids: &Vec<u32>, owned: &Vec<Game>) -> (r: Vec<Game>)
    ensures
        r@.len() == appids@.len(),
        forall|i: int| 0 <= i < appids@.len() ==> r@[i] == spec_game_for(
            #[trigger] appids@[i],
            owned@,
        ),
{
    let n = appids.len();
    let mut r: Vec<Game> = Vec::new();
    let mut i: usize = 0;
    while i < n
        invariant
            i <= n,
            n == appids@.len(),
            r@.len() == i,
            forall|k: int| 0 <= k < i ==> r@[k] == spec_game_for(#[trigger] appids@[k], owned@),
        decreases n - i,
    {
        let appid = appids[i];
        let entry = match find_game(owned, appid) {
            Some(g) => Game {
                appid,
                name: clone_opt_string(&g.name),
                playtime_forever: g.playtime_forever,
                playtime_2weeks: 0,
                rtime_last_played: g.rtime_last_played,
            },
            None => Game {
                appid,
                name: None,
                playtime_forever: 0,
                playtime_2weeks: 0,
                rtime_last_played: 0,
            },
        };
        r.push(entry);
        i += 1;
    }
    r
}

} // verus!
