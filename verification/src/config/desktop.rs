//! What the terminal reads from the desktop's own tools: the wallpaper path that
//! `swww query` or `~/.fehbg` names, which files are images, and the display DPI
//! that `xrdb -query` reports.
use vstd::prelude::*;
use crate::config::config::{ws_char, trim_chars, first_of, is_ws_char, trim_span, find_either, chars_text};
use crate::shell::shell_integration::{to_lowercase, unicode_lowercase, same_text};
use crate::text::{parse_unsigned, parse_unsigned_exec};

verus! {

/// The characters of `s`, in a vector.
fn chars_of(s: &str) -> (r: Vec<char>)
    ensures
        r@ == s@,
{
    let mut cs: Vec<char> = Vec::new();
    for c in it: s.chars()
        invariant
            it.seq() == s@,
            cs@ == s@.take(it.index() as int),
    {
        cs.push(c);
        assert(cs@ =~= s@.take(it.index() + 1));
    }
    assert(cs@ =~= s@);
    cs
}

/// Index of the first occurrence of `p` in `s` (`str::find`).
pub open spec fn find_seq(s: Seq<char>, p: Seq<char>) -> Option<int>
    decreases s.len(),
{
    if s.len() < p.len() {
        None
    } else if s.take(p.len() as int) == p {
        Some(0)
    } else if s.len() == 0 {
        None
    } else {
        match find_seq(s.drop_first(), p) {
            Some(i) => Some(i + 1),
            None => None,
        }
    }
}

/// Index (from `from`) of the first occurrence of `p` in `s[from..]`.
fn find_chars(s: &Vec<char>, from: usize, p: &Vec<char>) -> (r: Option<usize>)
    requires
        from <= s@.len(),
    ensures
        match r {
            Some(i) => find_seq(s@.skip(from as int), p@) == Some(i as int) && from + i + p@.len() <= s@.len(),
            None => find_seq(s@.skip(from as int), p@) is None,
        },
{
    let ghost t = s@.skip(from as int);
    let mut i = from;
    assert(t.skip(0) =~= t);
    while i <= s.len()
        invariant
            from <= i <= s@.len() + 1,
            t == s@.skip(from as int),
            i <= s@.len() ==> find_seq(t, p@) == match find_seq(t.skip(i - from), p@) {
                Some(k) => Some(k + (i - from)),
                None => None,
            },
            i > s@.len() ==> find_seq(t, p@) is None,
        decreases s@.len() + 1 - i,
    {
        let ghost u = t.skip(i - from);
        if s.len() - i < p.len() {
            assert(find_seq(u, p@) is None);
            return None;
        }
        let mut k: usize = 0;
        let mut same = true;
        let n = s.len();
        while k < p.len()
            invariant
                n == s@.len(),
                i + p@.len() <= s@.len(),
                k <= p@.len(),
                u == s@.skip(i as int),
                same == (forall|j: int| 0 <= j < k ==> u[j] == p@[j]),
            decreases p@.len() - k,
        {
            if s[i + k] != p[k] {
                assert(u[k as int] != p@[k as int]);
                same = false;
            }
            k = k + 1;
        }
        proof {
            if same {
                assert(u.take(p@.len() as int) =~= p@);
            } else {
                let j = choose|j: int| 0 <= j < p@.len() && u[j] != p@[j];
                assert(u.take(p@.len() as int)[j] != p@[j]);
            }
        }
        if same {
            return Some(i - from);
        }
        if i == s.len() {
            assert(u.len() == 0);
            return None;
        }
        assert(u.drop_first() =~= t.skip(i + 1 - from));
        i = i + 1;
    }
    None
}

// ── swww ────────────────────────────────────────────────────────────────────

/// The text `image: `.
pub open spec fn image_tag() -> Seq<char> {
    seq!['i', 'm', 'a', 'g', 'e', ':', ' ']
}

/// The wallpaper path on a line of `swww query` (`output: X, image: /p, ...`):
/// what follows `image: ` up to the next comma, trimmed.
pub open spec fn swww_image(line: Seq<char>) -> Option<Seq<char>> {
    match find_seq(line, image_tag()) {
        Some(p) => {
            let rest = line.skip(p + 7);
            let end = match first_of(rest, ',', ',') {
                Some(e) => e,
                None => rest.len() as int,
            };
            Some(trim_chars(rest.take(end)))
        },
        None => None,
    }
}

/// The wallpaper path a line of `swww query` names (see [`swww_image`]).
pub fn swww_image_path(line: &str) -> (r: Option<String>)
    ensures
        match r {
            Some(v) => swww_image(line@) == Some(v@),
            None => swww_image(line@) is None,
        },
{
    let cs = chars_of(line);
    let tag: Vec<char> = vec!['i', 'm', 'a', 'g', 'e', ':', ' '];
    assert(tag@ =~= image_tag());
    assert(cs@.skip(0) =~= cs@);
    let n = cs.len();
    match find_chars(&cs, 0, &tag) {
        None => None,
        Some(p) => {
            let start = p + 7;
            let ghost rest = cs@.skip(start as int);
            let end = match find_either(&cs, start, cs.len(), ',', ',') {
                Some(e) => {
                    assert(cs@.subrange(start as int, cs@.len() as int) =~= rest);
                    start + e
                },
                None => {
                    assert(cs@.subrange(start as int, cs@.len() as int) =~= rest);
                    cs.len()
                },
            };
            assert(cs@.subrange(start as int, end as int) =~= rest.take(end - start));
            let (a, b) = trim_span(&cs, start, end);
            Some(chars_text(&cs, a, b))
        },
    }
}

// ── feh ─────────────────────────────────────────────────────────────────────

/// The whitespace-separated words of `s` after the word `cur` in progress
/// (`split_whitespace`, with `cur` empty at the start).
pub open spec fn words_from(s: Seq<char>, cur: Seq<char>) -> Seq<Seq<char>>
    decreases s.len(),
{
    let done: Seq<Seq<char>> = if cur.len() > 0 { seq![cur] } else { Seq::empty() };
    if s.len() == 0 {
        done
    } else if ws_char(s[0]) {
        done + words_from(s.drop_first(), Seq::empty())
    } else {
        words_from(s.drop_first(), cur.push(s[0]))
    }
}

/// Length of the run of `c` at the start of `s`.
pub open spec fn lead_run(s: Seq<char>, c: char) -> nat
    decreases s.len(),
{
    if s.len() > 0 && s[0] == c { 1 + lead_run(s.drop_first(), c) } else { 0 }
}

/// Length of the run of `c` at the end of `s`.
pub open spec fn trail_run(s: Seq<char>, c: char) -> nat
    decreases s.len(),
{
    if s.len() > 0 && s.last() == c { 1 + trail_run(s.drop_last(), c) } else { 0 }
}

/// `s` without the runs of `c` at either end (`trim_matches(c)`).
pub open spec fn strip_run(s: Seq<char>, c: char) -> Seq<char> {
    let a = s.skip(lead_run(s, c) as int);
    a.take(a.len() - trail_run(a, c))
}

/// The paths among `words`: those holding a `/`, without surrounding quotes.
pub open spec fn paths_among(words: Seq<Seq<char>>) -> Seq<Seq<char>>
    decreases words.len(),
{
    if words.len() == 0 {
        Seq::empty()
    } else {
        let rest = paths_among(words.drop_last());
        if words.last().contains('/') {
            rest.push(strip_run(strip_run(words.last(), '\''), '"'))
        } else {
            rest
        }
    }
}

/// `s[from..to]` without the runs of `c` at either end.
fn strip_span(s: &Vec<char>, from: usize, to: usize, c: char) -> (r: (usize, usize))
    requires
        from <= to <= s@.len(),
    ensures
        from <= r.0 <= r.1 <= to,
        s@.subrange(r.0 as int, r.1 as int) == strip_run(s@.subrange(from as int, to as int), c),
{
    let ghost t = s@.subrange(from as int, to as int);
    let mut a = from;
    assert(t.skip(0) =~= t);
    while a < to && s[a] == c
        invariant
            from <= a <= to <= s@.len(),
            t == s@.subrange(from as int, to as int),
            lead_run(t, c) == (a - from) + lead_run(t.skip(a - from), c),
        decreases to - a,
    {
        assert(t.skip(a - from).drop_first() =~= t.skip(a - from + 1));
        a = a + 1;
    }
    proof {
        if a < to {
            assert(t.skip(a - from)[0] == s@[a as int]);
        }
    }
    let ghost u = t.skip(lead_run(t, c) as int);
    assert(u =~= s@.subrange(a as int, to as int));
    let mut b = to;
    assert(u.take(u.len() as int) =~= u);
    while b > a && s[b - 1] == c
        invariant
            from <= a <= b <= to <= s@.len(),
            u == s@.subrange(a as int, to as int),
            trail_run(u, c) == (to - b) + trail_run(u.take(b - a), c),
        decreases b - a,
    {
        assert(u.take(b - a).drop_last() =~= u.take(b - a - 1));
        b = b - 1;
    }
    proof {
        if b > a {
            assert(u.take(b - a).last() == s@[b - 1]);
        }
    }
    assert(u.take(u.len() - trail_run(u, c)) =~= s@.subrange(a as int, b as int));
    (a, b)
}

/// Whether `s[from..to]` holds `c`.
fn span_contains(s: &Vec<char>, from: usize, to: usize, c: char) -> (r: bool)
    requires
        from <= to <= s@.len(),
    ensures
        r == s@.subrange(from as int, to as int).contains(c),
{
    let mut i = from;
    while i < to
        invariant
            from <= i <= to <= s@.len(),
            forall|k: int| from <= k < i ==> s@[k] != c,
        decreases to - i,
    {
        if s[i] == c {
            assert(s@.subrange(from as int, to as int)[i - from] == c);
            return true;
        }
        i = i + 1;
    }
    proof {
        if s@.subrange(from as int, to as int).contains(c) {
            let k = choose|k: int| 0 <= k < to - from && s@.subrange(from as int, to as int)[k] == c;
            assert(s@[from + k] == c);
        }
    }
    false
}

/// The word `s[from..to]` as a path candidate, appended when it holds a `/`.
fn push_path_word(out: &mut Vec<String>, s: &Vec<char>, from: usize, to: usize)
    requires
        from <= to <= s@.len(),
    ensures
        final(out)@.len() == old(out)@.len() + (if s@.subrange(from as int, to as int).contains('/') { 1int } else { 0 }),
        forall|i: int| 0 <= i < old(out)@.len() ==> (#[trigger] final(out)@[i])@ == old(out)@[i]@,
        s@.subrange(from as int, to as int).contains('/') ==> final(out)@[old(out)@.len() as int]@ == strip_run(
            strip_run(s@.subrange(from as int, to as int), '\''),
            '"',
        ),
{
    if span_contains(s, from, to, '/') {
        let (a, b) = strip_span(s, from, to, '\'');
        let (a2, b2) = strip_span(s, a, b, '"');
        out.push(chars_text(s, a2, b2));
    }
}

/// The path views of `v`.
pub open spec fn texts(v: Seq<String>) -> Seq<Seq<char>> {
    Seq::new(v.len(), |i: int| v[i]@)
}

/// The paths that `~/.fehbg` names: its words holding a `/`, without quotes.
pub fn fehbg_paths(content: &str) -> (r: Vec<String>)
    ensures
        texts(r@) == paths_among(words_from(content@, Seq::empty())),
{
    let cs = chars_of(content);
    let ghost s = cs@;
    let mut out: Vec<String> = Vec::new();
    let mut start: usize = 0;
    let mut i: usize = 0;
    let ghost mut done: Seq<Seq<char>> = Seq::empty();
    assert(s.skip(0) =~= s);
    assert(s.subrange(0, 0) =~= Seq::<char>::empty());
    assert(done + words_from(s, Seq::empty()) =~= words_from(s, Seq::empty()));
    while i < cs.len()
        invariant
            s == cs@,
            start <= i <= s.len(),
            words_from(s, Seq::empty()) == done + words_from(s.skip(i as int), s.subrange(start as int, i as int)),
            texts(out@) == paths_among(done),
            forall|k: int| start <= k < i ==> !ws_char(#[trigger] s[k]),
        decreases s.len() - i,
    {
        let ghost cur = s.subrange(start as int, i as int);
        let ghost u = s.skip(i as int);
        assert(u.drop_first() =~= s.skip(i + 1));
        assert(u[0] == s[i as int]);
        if is_ws_char(cs[i]) {
            let ghost before = out@;
            if start < i {
                push_path_word(&mut out, &cs, start, i);
                proof {
                    let nd = done.push(cur);
                    assert(nd.drop_last() =~= done);
                    assert(nd.last() == cur);
                    assert(texts(out@) =~= paths_among(nd));
                    assert(seq![cur] + words_from(s.skip(i + 1), Seq::empty()) =~= seq![cur].add(words_from(s.skip(i + 1), Seq::empty())));
                    assert(done + (seq![cur] + words_from(s.skip(i + 1), Seq::empty())) =~= nd + words_from(s.skip(i + 1), Seq::empty()));
                    done = nd;
                }
            } else {
                assert(cur.len() == 0);
                assert(Seq::<Seq<char>>::empty() + words_from(s.skip(i + 1), Seq::empty()) =~= words_from(s.skip(i + 1), Seq::empty()));
            }
            i = i + 1;
            start = i;
            assert(s.subrange(start as int, i as int) =~= Seq::<char>::empty());
        } else {
            assert(cur.push(s[i as int]) =~= s.subrange(start as int, i + 1));
            i = i + 1;
        }
    }
    proof {
        let cur = s.subrange(start as int, i as int);
        assert(s.skip(i as int).len() == 0);
    }
    let ghost cur = s.subrange(start as int, i as int);
    if start < i {
        push_path_word(&mut out, &cs, start, i);
        proof {
            let nd = done.push(cur);
            assert(nd.drop_last() =~= done);
            assert(texts(out@) =~= paths_among(nd));
            assert(done + seq![cur] =~= nd);
        }
    } else {
        assert(done + Seq::<Seq<char>>::empty() =~= done);
    }
    out
}

// ── Image files ─────────────────────────────────────────────────────────────

/// The file extensions taken as images (already lowercase).
pub open spec fn image_extension(lower: Seq<char>) -> bool {
    lower == "jpg"@ || lower == "jpeg"@ || lower == "png"@ || lower == "webp"@ || lower == "bmp"@
}

/// Whether a file with extension `ext` is taken as an image, ignoring case.
pub fn is_image_extension(ext: &str) -> (r: bool)
    ensures
        r == image_extension(unicode_lowercase(ext@)),
{
    let lower = to_lowercase(ext);
    let l = lower.as_str();
    same_text(l, "jpg") || same_text(l, "jpeg") || same_text(l, "png") || same_text(l, "webp") || same_text(l, "bmp")
}

// ── xrdb ────────────────────────────────────────────────────────────────────

/// The text `Xft.dpi:`.
pub open spec fn xft_tag() -> Seq<char> {
    seq!['X', 'f', 't', '.', 'd', 'p', 'i', ':']
}

/// Characters as the bytes an integer parser sees: ASCII as itself, anything
/// else as a byte that is neither a digit nor a sign (it fails the parse as the
/// character would).
pub open spec fn ascii_bytes(s: Seq<char>) -> Seq<u8> {
    Seq::new(s.len(), |i: int| if (s[i] as u32) < 128 { s[i] as u8 } else { 0xFFu8 })
}

/// The DPI a line of `xrdb -query` sets: on an `Xft.dpi:` line, the text up to
/// the next `:`, trimmed, read as a `u32`.
pub open spec fn xft_dpi_of(line: Seq<char>) -> Option<u32> {
    if line.len() >= 8 && line.take(8) == xft_tag() {
        let rest = line.skip(8);
        let seg = match first_of(rest, ':', ':') {
            Some(e) => rest.take(e),
            None => rest,
        };
        match parse_unsigned(ascii_bytes(trim_chars(seg)), u32::MAX as nat) {
            Some(n) => Some(n as u32),
            None => None,
        }
    } else {
        None
    }
}

/// The DPI a line of `xrdb -query` sets, if any (see [`xft_dpi_of`]).
pub fn xft_dpi(line: &str) -> (r: Option<u32>)
    ensures
        r == xft_dpi_of(line@),
{
    let cs = chars_of(line);
    if cs.len() < 8 || cs[0] != 'X' || cs[1] != 'f' || cs[2] != 't' || cs[3] != '.' || cs[4] != 'd' || cs[5] != 'p'
        || cs[6] != 'i' || cs[7] != ':' {
        proof {
            if cs@.len() >= 8 && cs@.take(8) == xft_tag() {
                assert(cs@.take(8)[0] == cs@[0]);
                assert(cs@.take(8)[1] == cs@[1]);
                assert(cs@.take(8)[2] == cs@[2]);
                assert(cs@.take(8)[3] == cs@[3]);
                assert(cs@.take(8)[4] == cs@[4]);
                assert(cs@.take(8)[5] == cs@[5]);
                assert(cs@.take(8)[6] == cs@[6]);
                assert(cs@.take(8)[7] == cs@[7]);
            }
        }
        return None;
    }
    assert(cs@.take(8) =~= xft_tag());
    let ghost rest = cs@.skip(8);
    assert(cs@.subrange(8, cs@.len() as int) =~= rest);
    let end = match find_either(&cs, 8, cs.len(), ':', ':') {
        Some(e) => {
            assert(cs@.subrange(8, 8 + e) =~= rest.take(e as int));
            8 + e
        },
        None => cs.len(),
    };
    let (a, b) = trim_span(&cs, 8, end);
    let mut bytes: Vec<u8> = Vec::new();
    let mut i = a;
    while i < b
        invariant
            a <= i <= b <= cs@.len(),
            bytes@ == ascii_bytes(cs@.subrange(a as int, i as int)),
        decreases b - i,
    {
        let c = cs[i];
        let v: u8 = if (c as u32) < 128 { c as u8 } else { 0xFF };
        bytes.push(v);
        i = i + 1;
        assert(bytes@ =~= ascii_bytes(cs@.subrange(a as int, i as int)));
    }
    match parse_unsigned_exec(bytes.as_slice(), 0xFFFF_FFFF) {
        Some(n) => Some(n as u32),
        None => None,
    }
}

} // verus!
