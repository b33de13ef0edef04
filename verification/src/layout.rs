//! What the reader screen shows, computed as text: the chapter body laid out in
//! indented, wrapped lines, the file-like header path, and status fragments.
//! Colours and widgets are drawn outside the library.
use vstd::prelude::*;

use crate::state::now_unix;
use crate::text::{chars_of, clock_text, extend, format_clock, occurs_at, replace, replace_all, string_of, trim, trimmed};
use crate::weburl::{last_nonempty_segment, strings_view, UrlView, WebUrl};

verus! {

/// The narrowest a chapter is ever wrapped.
pub const MIN_WRAP_WIDTH: usize = 20;

/// The smallest font-size step.
pub const MIN_FONT_SIZE_STEP: i8 = -3;

/// The largest font-size step.
pub const MAX_FONT_SIZE_STEP: i8 = 3;

/// The indentation of every body line.
pub open spec fn indent() -> Seq<char> {
    "  "@
}

// ---------------------------------------------------------------------------
// Wrap width
// ---------------------------------------------------------------------------

/// The percentage of the base width used at a font-size step (clamped to
/// `MIN_FONT_SIZE_STEP..=MAX_FONT_SIZE_STEP`): larger steps mean larger
/// letters, hence fewer of them per line.
pub open spec fn width_percent(step: i8) -> int {
    if step <= -3 {
        145
    } else if step == -2 {
        130
    } else if step == -1 {
        115
    } else if step == 0 {
        100
    } else if step == 1 {
        88
    } else if step == 2 {
        78
    } else {
        70
    }
}

/// The wrap width for a base width and font-size step, never under `MIN_WRAP_WIDTH`.
pub open spec fn scaled_width(base: int, step: i8) -> int {
    let w = base * width_percent(step) / 100;
    if w > MIN_WRAP_WIDTH { w } else { MIN_WRAP_WIDTH as int }
}

/// Scales a wrap width by the font-size step.
pub fn scaled_wrap_width(base_width: usize, font_size_step: i8) -> (r: usize)
    requires
        base_width * width_percent(font_size_step) <= usize::MAX,
    ensures
        r == scaled_width(base_width as int, font_size_step),
        r >= MIN_WRAP_WIDTH,
{
    let step = if font_size_step < MIN_FONT_SIZE_STEP {
        MIN_FONT_SIZE_STEP
    } else if font_size_step > MAX_FONT_SIZE_STEP {
        MAX_FONT_SIZE_STEP
    } else {
        font_size_step
    };
    let percent: usize = match step {
        -3 => 145,
        -2 => 130,
        -1 => 115,
        0 => 100,
        1 => 88,
        2 => 78,
        _ => 70,
    };
    assert(percent == width_percent(font_size_step));
    let w = base_width * percent / 100;
    if w > MIN_WRAP_WIDTH {
        w
    } else {
        MIN_WRAP_WIDTH
    }
}

/// The width a body is wrapped at on a screen `width` columns wide: the width
/// less the indent and two columns of margin, at least `MIN_WRAP_WIDTH`, then
/// scaled by the font-size step.
pub open spec fn wrap_width_for(width: u16, step: i8) -> int {
    let base = if width as int - 4 > MIN_WRAP_WIDTH as int {
        width as int - 4
    } else {
        MIN_WRAP_WIDTH as int
    };
    scaled_width(base, step)
}

// ---------------------------------------------------------------------------
// Paragraphs
// ---------------------------------------------------------------------------

/// The text with CRLF turned into LF and a paragraph break inserted after
/// closing quotes (`."`, `.”` and `”`), a cheap heuristic for novel dialogue.
pub open spec fn normalized(text: Seq<char>) -> Seq<char> {
    let a = replace_all(text, "\r\n"@, "\n"@);
    let b = replace_all(a, ".\""@, ".\"\n\n"@);
    let c = replace_all(b, ".”"@, ".”\n\n"@);
    replace_all(c, "”"@, "”\n\n"@)
}

/// Normalizes line endings and breaks paragraphs after closing quotes.
pub fn normalize_whitespace(text: &str) -> (r: String)
    ensures
        r@ == normalized(text@),
{
    let v = normalized_chars(text);
    string_of(v.as_slice())
}

/// The normalized text, as characters.
fn normalized_chars(text: &str) -> (r: Vec<char>)
    ensures
        r@ == normalized(text@),
{
    proof {
        reveal_strlit("\r\n");
        reveal_strlit(".\"");
        reveal_strlit(".”");
        reveal_strlit("”");
    }
    let s = chars_of(text);
    let a = replace(s.as_slice(), chars_of("\r\n").as_slice(), chars_of("\n").as_slice());
    let b = replace(a.as_slice(), chars_of(".\"").as_slice(), chars_of(".\"\n\n").as_slice());
    let c = replace(b.as_slice(), chars_of(".”").as_slice(), chars_of(".”\n\n").as_slice());
    replace(c.as_slice(), chars_of("”").as_slice(), chars_of("”\n\n").as_slice())
}

/// The pieces of `s` between the separators, scanning from the left, with
/// `cur` the piece read so far (std's `str::split` for a non-empty pattern).
pub open spec fn split_from(s: Seq<char>, sep: Seq<char>, cur: Seq<char>) -> Seq<Seq<char>>
    decreases s.len(),
{
    if s.len() == 0 || sep.len() == 0 {
        seq![cur + s]
    } else if occurs_at(s, sep, 0) {
        seq![cur] + split_from(s.skip(sep.len() as int), sep, Seq::empty())
    } else {
        split_from(s.skip(1), sep, cur.push(s[0]))
    }
}

/// The pieces of `s` between occurrences of `sep`.
pub open spec fn split_on(s: Seq<char>, sep: Seq<char>) -> Seq<Seq<char>> {
    split_from(s, sep, Seq::empty())
}

/// The paragraphs of a text: its pieces between blank lines (`"\n\n"`) that
/// hold more than white space.
pub open spec fn paragraphs(text: Seq<char>) -> Seq<Seq<char>> {
    split_on(text, "\n\n"@).filter(|p: Seq<char>| trimmed(p).len() > 0)
}

/// Splits `s` at every `"\n\n"`, keeping the pieces that hold more than white space.
pub fn split_paragraphs(s: &[char]) -> (r: Vec<Vec<char>>)
    ensures
        r@.map_values(|p: Vec<char>| p@) == paragraphs(s@),
{
    proof {
        reveal_strlit("\n\n");
    }
    let sep = chars_of("\n\n");
    let mut pieces: Vec<Vec<char>> = Vec::new();
    let mut cur: Vec<char> = Vec::new();
    let mut i: usize = 0;
    assert(s@.skip(0) =~= s@);
    assert(split_on(s@, sep@) == split_from(s@.skip(0), sep@, cur@));
    while i < s.len()
        invariant
            i <= s@.len(),
            sep@ == "\n\n"@,
            sep@.len() == 2,
            split_on(s@, sep@) == pieces@.map_values(|p: Vec<char>| p@) + split_from(
                s@.skip(i as int),
                sep@,
                cur@,
            ),
        decreases s@.len() - i,
    {
        let ghost rest = s@.skip(i as int);
        if crate::text::matches_at(s, sep.as_slice(), i) {
            assert(rest.subrange(0, 2) =~= s@.subrange(i as int, i + 2));
            assert(rest.skip(2) =~= s@.skip(i + 2));
            let ghost before = pieces@.map_values(|p: Vec<char>| p@);
            let mut done: Vec<char> = Vec::new();
            std::mem::swap(&mut done, &mut cur);
            pieces.push(done);
            assert(pieces@.map_values(|p: Vec<char>| p@) =~= before.push(done@));
            assert(Seq::<char>::empty() =~= cur@);
            i = i + 2;
        } else {
            assert(!occurs_at(rest, sep@, 0)) by {
                if occurs_at(rest, sep@, 0) {
                    assert(rest.subrange(0, 2) =~= s@.subrange(i as int, i + 2));
                }
            }
            assert(rest.skip(1) =~= s@.skip(i + 1));
            cur.push(s[i]);
            i = i + 1;
        }
    }
    assert(s@.skip(i as int) =~= Seq::<char>::empty());
    assert(cur@ + s@.skip(i as int) =~= cur@);
    let ghost all = pieces@.map_values(|p: Vec<char>| p@);
    pieces.push(cur);
    assert(pieces@.map_values(|p: Vec<char>| p@) =~= split_on(s@, sep@));
    let ghost whole = split_on(s@, sep@);
    let mut out: Vec<Vec<char>> = Vec::new();
    let n = pieces.len();
    for k in 0..n
        invariant
            n == pieces@.len(),
            whole == pieces@.map_values(|p: Vec<char>| p@),
            out@.map_values(|p: Vec<char>| p@) == whole.take(k as int).filter(
                |p: Seq<char>| trimmed(p).len() > 0,
            ),
    {
        proof {
            assert(whole.take(k + 1).drop_last() =~= whole.take(k as int));
            reveal_with_fuel(Seq::<_>::filter, 1);
        }
        let t = trim(pieces[k].as_slice());
        let ghost before = out@.map_values(|p: Vec<char>| p@);
        if t.len() > 0 {
            let p = pieces[k].clone();
            out.push(p);
            assert(out@.map_values(|p: Vec<char>| p@) =~= before.push(whole[k as int]));
        }
        assert(out@.map_values(|p: Vec<char>| p@) =~= whole.take(k + 1).filter(
            |p: Seq<char>| trimmed(p).len() > 0,
        ));
    }
    assert(whole.take(n as int) =~= whole);
    out
}

// ---------------------------------------------------------------------------
// Wrapping
// ---------------------------------------------------------------------------

/// The lines `textwrap::wrap(text, width)` breaks a text into.
pub uninterp spec fn wrapped_lines(text: Seq<char>, width: usize) -> Seq<Seq<char>>;

/// `textwrap::wrap` with a plain width. The claim: the lines are `wrapped_lines`.
#[verifier::external_body]
fn textwrap_wrap(text: &str, width: usize) -> (r: Vec<String>)
    ensures
        strings_view(r@) == wrapped_lines(text@, width),
{
    textwrap::wrap(text, width).into_iter().map(|l| l.into_owned()).collect()
}

/// Each line of `lines`, indented.
pub open spec fn indented(lines: Seq<Seq<char>>) -> Seq<Seq<char>> {
    lines.map_values(|l: Seq<char>| indent() + l)
}

/// The lines of the paragraphs `ps`, each wrapped at `width` and indented, with
/// an empty line between two paragraphs.
pub open spec fn paragraph_lines(ps: Seq<Seq<char>>, width: usize) -> Seq<Seq<char>>
    decreases ps.len(),
{
    if ps.len() == 0 {
        Seq::empty()
    } else {
        let before = paragraph_lines(ps.drop_last(), width);
        let gap: Seq<Seq<char>> = if ps.len() > 1 { seq![Seq::empty()] } else { Seq::empty() };
        before + gap + indented(wrapped_lines(trimmed(ps.last()), width))
    }
}

/// The lines the reader shows for a chapter body on a screen `width` columns
/// wide at font-size step `step`; a lone placeholder line when there are none.
pub open spec fn body_lines_of(text: Seq<char>, width: u16, step: i8) -> Seq<Seq<char>> {
    let w = wrap_width_for(width, step) as usize;
    let ls = paragraph_lines(paragraphs(normalized(text)), w);
    if ls.len() == 0 {
        seq![indent() + "(empty chapter)"@]
    } else {
        ls
    }
}

/// A paragraph is laid out from its trimmed text alone: paragraphs that differ
/// only in white space at their ends give the same lines, so no paragraph
/// starts with a blank line or keeps its leading spaces after the indent.
pub proof fn lemma_layout_ignores_paragraph_margins(
    ps: Seq<Seq<char>>,
    qs: Seq<Seq<char>>,
    width: usize,
)
    requires
        ps.len() == qs.len(),
        forall|i: int| 0 <= i < ps.len() ==> trimmed(#[trigger] ps[i]) == trimmed(qs[i]),
    ensures
        paragraph_lines(ps, width) == paragraph_lines(qs, width),
    decreases ps.len(),
{
    if ps.len() > 0 {
        assert forall|i: int| 0 <= i < ps.drop_last().len() implies trimmed(
            #[trigger] ps.drop_last()[i],
        ) == trimmed(qs.drop_last()[i]) by {
            assert(ps.drop_last()[i] == ps[i]);
            assert(qs.drop_last()[i] == qs[i]);
        }
        lemma_layout_ignores_paragraph_margins(ps.drop_last(), qs.drop_last(), width);
        assert(trimmed(ps.last()) == trimmed(qs.last()));
    }
}

/// A single paragraph is laid out as the lines of wrapping its trimmed text,
/// each after the two-space indent; so padding a paragraph with white space
/// changes nothing, and a text made of one paragraph between blank lines is
/// laid out like the paragraph itself.
pub proof fn lemma_one_paragraph_layout(p: Seq<char>, pad_before: Seq<char>, pad_after: Seq<char>, width: usize)
    requires
        trimmed(pad_before + p + pad_after) == trimmed(p),
    ensures
        paragraph_lines(seq![p], width) == indented(wrapped_lines(trimmed(p), width)),
        paragraph_lines(seq![pad_before + p + pad_after], width) == paragraph_lines(seq![p], width),
        forall|j: int| 0 <= j < paragraph_lines(seq![p], width).len() ==>
            (#[trigger] paragraph_lines(seq![p], width)[j]).take(2) == indent(),
{
    let one = seq![p];
    assert(one.drop_last() =~= Seq::<Seq<char>>::empty());
    assert(paragraph_lines(one.drop_last(), width) =~= Seq::<Seq<char>>::empty());
    assert(one.last() == p);
    assert(paragraph_lines(one, width) =~= indented(wrapped_lines(trimmed(p), width)));
    lemma_layout_ignores_paragraph_margins(seq![pad_before + p + pad_after], one, width);
    assert forall|j: int| 0 <= j < paragraph_lines(one, width).len() implies (
    #[trigger] paragraph_lines(one, width)[j]).take(2) == indent() by {
        reveal_strlit("  ");
        assert((indent() + wrapped_lines(trimmed(p), width)[j]).take(2) =~= indent());
    }
}

/// Between two paragraphs there is exactly one empty line: the lines of
/// `ps + [p]` are those of `ps`, then (when `ps` is not empty) one empty line,
/// then the indented lines of `p`'s trimmed text.
pub proof fn lemma_paragraph_separator(ps: Seq<Seq<char>>, p: Seq<char>, width: usize)
    ensures
        paragraph_lines(ps.push(p), width) == paragraph_lines(ps, width) + (if ps.len() > 0 {
            seq![Seq::<char>::empty()]
        } else {
            Seq::<Seq<char>>::empty()
        }) + indented(wrapped_lines(trimmed(p), width)),
{
    assert(ps.push(p).drop_last() =~= ps);
}

/// Two chapter bodies whose paragraphs agree once trimmed are laid out alike:
/// the spaces and line breaks around a paragraph (such as the line break left
/// after a dialogue break, or a paragraph's leading spaces) never show.
pub proof fn lemma_body_layout_ignores_paragraph_margins(t1: Seq<char>, t2: Seq<char>, width: u16, step: i8)
    requires
        paragraphs(normalized(t1)).len() == paragraphs(normalized(t2)).len(),
        forall|i: int| 0 <= i < paragraphs(normalized(t1)).len() ==> trimmed(
            #[trigger] paragraphs(normalized(t1))[i],
        ) == trimmed(paragraphs(normalized(t2))[i]),
    ensures
        body_lines_of(t1, width, step) == body_lines_of(t2, width, step),
{
    lemma_layout_ignores_paragraph_margins(
        paragraphs(normalized(t1)),
        paragraphs(normalized(t2)),
        wrap_width_for(width, step) as usize,
    );
}

/// Lays out a chapter body: paragraphs wrapped to the screen and indented.
pub fn body_lines(text: &str, width: u16, font_size_step: i8) -> (r: Vec<String>)
    ensures
        strings_view(r@) == body_lines_of(text@, width, font_size_step),
{
    let base = if width as usize >= 4 && width as usize - 4 > MIN_WRAP_WIDTH {
        width as usize - 4
    } else {
        MIN_WRAP_WIDTH
    };
    assert(base * width_percent(font_size_step) <= 65535 * 145) by (nonlinear_arith)
        requires
            base <= 65535,
            0 <= width_percent(font_size_step) <= 145,
    ;
    let w = scaled_wrap_width(base, font_size_step);
    assert(w == wrap_width_for(width, font_size_step));
    let normalized_text = normalized_chars(text);
    let paras = split_paragraphs(normalized_text.as_slice());
    let ghost ps = paras@.map_values(|p: Vec<char>| p@);
    let indent_chars = chars_of("  ");
    let mut out: Vec<String> = Vec::new();
    let n = paras.len();
    for k in 0..n
        invariant
            n == paras@.len(),
            ps == paras@.map_values(|p: Vec<char>| p@),
            indent_chars@ == indent(),
            strings_view(out@) == paragraph_lines(ps.take(k as int), w),
    {
        assert(ps.take(k + 1).drop_last() =~= ps.take(k as int));
        assert(ps.take(k + 1).last() == paras@[k as int]@);
        if k > 0 {
            let empty = String::new();
            proof {
                crate::weburl::lemma_strings_view_push(out@, empty);
            }
            out.push(empty);
        }
        let ghost base_lines = strings_view(out@);
        let para = string_of(trim(paras[k].as_slice()).as_slice());
        let wrapped = textwrap_wrap(para.as_str(), w);
        let m = wrapped.len();
        for j in 0..m
            invariant
                m == wrapped@.len(),
                indent_chars@ == indent(),
                strings_view(out@) == base_lines + indented(strings_view(wrapped@).take(j as int)),
        {
            let mut line = indent_chars.clone();
            extend(&mut line, chars_of(wrapped[j].as_str()).as_slice());
            let l = string_of(line.as_slice());
            proof {
                crate::weburl::lemma_strings_view_push(out@, l);
            }
            out.push(l);
            assert(indented(strings_view(wrapped@).take(j + 1)) =~= indented(
                strings_view(wrapped@).take(j as int),
            ).push(indent() + wrapped@[j as int]@));
        }
        assert(strings_view(wrapped@).take(m as int) =~= strings_view(wrapped@));
        assert(strings_view(out@) =~= paragraph_lines(ps.take(k + 1), w));
    }
    assert(ps.take(n as int) =~= ps);
    if out.len() == 0 {
        let mut line = indent_chars.clone();
        extend(&mut line, chars_of("(empty chapter)").as_slice());
        let l = string_of(line.as_slice());
        proof {
            crate::weburl::lemma_strings_view_push(out@, l);
            assert(strings_view(out@) =~= Seq::<Seq<char>>::empty());
        }
        out.push(l);
    }
    out
}

// ---------------------------------------------------------------------------
// Header and status
// ---------------------------------------------------------------------------

/// The character kept in a file-like name: ASCII letters, digits, `_` and `-`;
/// anything else becomes `_`.
pub open spec fn sanitized_char(c: char) -> char {
    if ('a' <= c && c <= 'z') || ('A' <= c && c <= 'Z') || ('0' <= c && c <= '9') || c == '_'
        || c == '-' {
        c
    } else {
        '_'
    }
}

/// A text made safe for a file-like name, character by character.
pub open spec fn sanitized(s: Seq<char>) -> Seq<char> {
    s.map_values(|c: char| sanitized_char(c))
}

/// Sanitizing keeps the length and leaves only ASCII letters, digits, `_` and `-`.
pub proof fn lemma_sanitized_is_safe(s: Seq<char>)
    ensures
        sanitized(s).len() == s.len(),
        forall|i: int| 0 <= i < s.len() ==> {
            let c = #[trigger] sanitized(s)[i];
            ('a' <= c && c <= 'z') || ('A' <= c && c <= 'Z') || ('0' <= c && c <= '9') || c == '_'
                || c == '-'
        },
{
}

/// Replaces every character but ASCII letters, digits, `_` and `-` by `_`.
pub fn sanitize(s: &str) -> (r: String)
    ensures
        r@ == sanitized(s@),
{
    let cs = chars_of(s);
    let mut out: Vec<char> = Vec::new();
    let n = cs.len();
    for i in 0..n
        invariant
            n == cs@.len(),
            cs@ == s@,
            out@ == sanitized(cs@.take(i as int)),
    {
        let c = cs[i];
        let k = if ('a' <= c && c <= 'z') || ('A' <= c && c <= 'Z') || ('0' <= c && c <= '9')
            || c == '_' || c == '-' {
            c
        } else {
            '_'
        };
        out.push(k);
        assert(sanitized(cs@.take(i + 1)) =~= sanitized(cs@.take(i as int)).push(k));
    }
    assert(cs@.take(n as int) =~= cs@);
    string_of(out.as_slice())
}

/// A text cut to at most `max` characters, the last one then an ellipsis.
pub open spec fn truncated(s: Seq<char>, max: nat) -> Seq<char> {
    if s.len() <= max {
        s
    } else {
        s.take(max - 1).push('…')
    }
}

/// Cuts a text to at most `max` characters, ending a cut text with `…`.
pub fn truncate(s: &str, max: usize) -> (r: String)
    requires
        max > 0 || s@.len() == 0,
    ensures
        r@ == truncated(s@, max as nat),
        r@.len() <= max,
{
    let cs = chars_of(s);
    if cs.len() <= max {
        return string_of(cs.as_slice());
    }
    let mut out: Vec<char> = Vec::new();
    let keep = max - 1;
    for i in 0..keep
        invariant
            keep == max - 1,
            keep < cs@.len(),
            out@ == cs@.take(i as int),
    {
        out.push(cs[i]);
        assert(cs@.take(i + 1) =~= cs@.take(i as int).push(cs@[i as int]));
    }
    out.push('…');
    string_of(out.as_slice())
}

/// The file-like path shown as the header for a URL: `src/chapter_<n>.rs` on
/// sangtacviet.vip, else `src/<last path segment, sanitized>.rs`.
pub open spec fn pseudo_path_of(u: UrlView) -> Seq<char> {
    let last = match last_nonempty_segment(u) {
        Some(l) => l,
        None => "index"@,
    };
    if u.host == Some("sangtacviet.vip"@) {
        "src/chapter_"@ + last + ".rs"@
    } else {
        "src/"@ + sanitized(last) + ".rs"@
    }
}

/// The header path for a URL.
pub fn pseudo_path(url: &WebUrl) -> (r: String)
    ensures
        r@ == pseudo_path_of(url@),
{
    let last = match url.last_nonempty_segment() {
        Some(l) => l,
        None => crate::text::owned("index"),
    };
    let on_site = match url.host_str() {
        Some(h) => crate::text::str_eq(h, "sangtacviet.vip"),
        None => false,
    };
    let mut v: Vec<char>;
    if on_site {
        v = chars_of("src/chapter_");
        extend(&mut v, chars_of(last.as_str()).as_slice());
    } else {
        v = chars_of("src/");
        extend(&mut v, chars_of(sanitize(last.as_str()).as_str()).as_slice());
    }
    extend(&mut v, chars_of(".rs").as_slice());
    string_of(v.as_slice())
}

/// The header path shown while no page is loaded because of an error.
pub fn error_path() -> (r: &'static str)
    ensures
        r@ == "src/error.rs"@,
{
    "src/error.rs"
}

/// The spinner frames.
pub open spec fn spinner_frames() -> Seq<Seq<char>> {
    seq!["⠋"@, "⠙"@, "⠹"@, "⠸"@, "⠼"@, "⠴"@, "⠦"@, "⠧"@, "⠇"@, "⠏"@]
}

/// The spinner frame for a tick count.
pub fn spinner_frame(tick: u64) -> (r: &'static str)
    ensures
        r@ == spinner_frames()[((tick as usize) as int) % 10],
{
    let frames = ["⠋", "⠙", "⠹", "⠸", "⠼", "⠴", "⠦", "⠧", "⠇", "⠏"];
    frames[(tick as usize) % 10]
}

/// The current time of day, `HH:MM:SS` (UTC).
pub fn now_hms() -> (r: String)
    ensures
        exists|t: u64| r@ == clock_text(t as nat),
{
    format_clock(now_unix())
}

} // verus!
