//! Text normalisation: whitespace trimming and collapsing, and the two forms
//! of a champion's name that the image service understands.
use vstd::prelude::*;

verus! {

// ---------------------------------------------------------------------------
// Character classes from the standard library
// ---------------------------------------------------------------------------

/// Characters with the Unicode `White_Space` property, the whitespace of
/// `char::is_whitespace` and `str::trim`.
pub open spec fn is_whitespace(c: char) -> bool {
    ||| '\t' <= c && c <= '\r'
    ||| c == ' '
    ||| c == '\u{85}'
    ||| c == '\u{A0}'
    ||| c == '\u{1680}'
    ||| '\u{2000}' <= c && c <= '\u{200A}'
    ||| c == '\u{2028}'
    ||| c == '\u{2029}'
    ||| c == '\u{202F}'
    ||| c == '\u{205F}'
    ||| c == '\u{3000}'
}

/// Characters that are alphabetic or numeric in the Unicode sense.
pub uninterp spec fn is_alphanumeric(c: char) -> bool;

/// The Unicode lowercase mapping of a whole string.
pub uninterp spec fn lowercase(s: Seq<char>) -> Seq<char>;

/// Whether `c` has the Unicode `White_Space` property (what
/// `char::is_whitespace` answers).
pub fn char_is_whitespace(c: char) -> (r: bool)
    ensures
        r == is_whitespace(c),
{
    ('\t' <= c && c <= '\r') || c == ' ' || c == '\u{85}' || c == '\u{A0}' || c == '\u{1680}'
        || ('\u{2000}' <= c && c <= '\u{200A}') || c == '\u{2028}' || c == '\u{2029}'
        || c == '\u{202F}' || c == '\u{205F}' || c == '\u{3000}'
}

/// Whether `c` is alphanumeric, by `char::is_alphanumeric`.
///
/// Trusted: the result is a function of `c` alone (its Unicode
/// `Alphabetic` or `Numeric` property). Of the ASCII characters, exactly the
/// letters and digits have it; which other characters have it is not stated.
#[verifier::external_body]
pub(crate) fn char_is_alphanumeric(c: char) -> (r: bool)
    ensures
        r == is_alphanumeric(c),
        c <= '\u{7F}' ==> (r <==> (('a' <= c && c <= 'z') || ('A' <= c && c <= 'Z') || ('0' <= c && c <= '9'))),
{
    c.is_alphanumeric()
}

/// The lowercase form of `s`, by `str::to_lowercase`.
///
/// Trusted: the result is a function of `s` alone; the Unicode case mapping
/// itself is not stated.
#[verifier::external_body]
pub(crate) fn str_to_lowercase(s: &str) -> (r: String)
    ensures
        r@ == lowercase(s@),
{
    s.to_lowercase()
}

/// Appends `c` to `s`, by `String::push`.
///
/// Trusted: the string afterwards is the old string followed by `c`.
#[verifier::external_body]
pub(crate) fn push_char(s: &mut String, c: char)
    ensures
        final(s)@ == old(s)@.push(c),
{
    s.push(c);
}

// ---------------------------------------------------------------------------
// ASCII case
// ---------------------------------------------------------------------------

/// `c` with an ASCII capital letter mapped to its small letter.
pub open spec fn ascii_lower(c: char) -> char {
    if 'A' <= c && c <= 'Z' {
        ((c as u32) + 32) as char
    } else {
        c
    }
}

/// Maps an ASCII capital letter to its small letter and leaves every other
/// character as it is.
pub fn ascii_lowercase(c: char) -> (r: char)
    ensures
        r == ascii_lower(c),
{
    if 'A' <= c && c <= 'Z' {
        let b: u8 = c as u8;
        assert(b == c as u32);
        (b + 32) as char
    } else {
        c
    }
}

// ---------------------------------------------------------------------------
// Trimming
// ---------------------------------------------------------------------------

/// `s` without its leading whitespace.
pub open spec fn trim_start(s: Seq<char>) -> Seq<char>
    decreases s.len(),
{
    if s.len() > 0 && is_whitespace(s[0]) {
        trim_start(s.drop_first())
    } else {
        s
    }
}

/// `s` without its trailing whitespace.
pub open spec fn trim_end(s: Seq<char>) -> Seq<char>
    decreases s.len(),
{
    if s.len() > 0 && is_whitespace(s.last()) {
        trim_end(s.drop_last())
    } else {
        s
    }
}

/// `s` without leading and trailing whitespace, as `str::trim` gives it.
pub open spec fn trim(s: Seq<char>) -> Seq<char> {
    trim_end(trim_start(s))
}

proof fn lemma_trim_start_at(s: Seq<char>, i: int)
    requires
        0 <= i <= s.len(),
        forall|k: int| 0 <= k < i ==> is_whitespace(#[trigger] s[k]),
        i == s.len() || !is_whitespace(s[i]),
    ensures
        trim_start(s) == s.subrange(i, s.len() as int),
    decreases i,
{
    if i == 0 {
        assert(s.subrange(0, s.len() as int) =~= s);
    } else {
        let t = s.drop_first();
        assert forall|k: int| 0 <= k < i - 1 implies is_whitespace(#[trigger] t[k]) by {
            assert(t[k] == s[k + 1]);
        }
        assert(is_whitespace(s[0]));
        lemma_trim_start_at(t, i - 1);
        assert(t.subrange(i - 1, t.len() as int) =~= s.subrange(i, s.len() as int));
    }
}

proof fn lemma_trim_end_at(s: Seq<char>, j: int)
    requires
        0 <= j <= s.len(),
        forall|k: int| j <= k < s.len() ==> is_whitespace(#[trigger] s[k]),
        j == 0 || !is_whitespace(s[j - 1]),
    ensures
        trim_end(s) == s.subrange(0, j),
    decreases s.len() - j,
{
    if j == s.len() {
        assert(s.subrange(0, j) =~= s);
    } else {
        let t = s.drop_last();
        assert(is_whitespace(s.last()));
        assert forall|k: int| j <= k < t.len() implies is_whitespace(#[trigger] t[k]) by {
            assert(t[k] == s[k]);
        }
        lemma_trim_end_at(t, j);
        assert(t.subrange(0, j) =~= s.subrange(0, j));
    }
}

/// Copies `chars[start..end]` into a new string.
fn string_from_range(chars: &Vec<char>, start: usize, end: usize) -> (r: String)
    requires
        start <= end <= chars.len(),
    ensures
        r@ == chars@.subrange(start as int, end as int),
{
    let mut r = String::new();
    let mut i = start;
    while i < end
        invariant
            start <= i <= end <= chars.len(),
            r@ == chars@.subrange(start as int, i as int),
        decreases end - i,
    {
        push_char(&mut r, chars[i]);
        assert(chars@.subrange(start as int, i + 1) =~= chars@.subrange(start as int, i as int).push(chars@[i as int]));
        i = i + 1;
    }
    r
}

/// The characters of `s`, in order.
fn chars_of(s: &str) -> (v: Vec<char>)
    ensures
        v@ == s@,
{
    let mut v: Vec<char> = Vec::new();
    for c in it: s.chars()
        invariant
            it.seq() == s@,
            v@ == s@.take(it.index()),
    {
        assert(s@.take(it.index() + 1) =~= s@.take(it.index()).push(c));
        v.push(c);
    }
    assert(s@.take(s@.len() as int) =~= s@);
    v
}

/// `s` without leading and trailing whitespace (`str::trim`).
pub fn trim_str(s: &str) -> (r: String)
    ensures
        r@ == trim(s@),
{
    let chars = chars_of(s);
    let mut start: usize = 0;
    while start < chars.len() && char_is_whitespace(chars[start])
        invariant
            chars@ == s@,
            start <= chars.len(),
            forall|k: int| 0 <= k < start ==> is_whitespace(#[trigger] chars@[k]),
        decreases chars.len() - start,
    {
        start = start + 1;
    }
    proof {
        lemma_trim_start_at(s@, start as int);
    }
    let ghost rest = s@.subrange(start as int, s@.len() as int);
    let mut end: usize = chars.len();
    while end > start && char_is_whitespace(chars[end - 1])
        invariant
            chars@ == s@,
            start <= end <= chars.len(),
            forall|k: int| end <= k < chars.len() ==> is_whitespace(#[trigger] chars@[k]),
        decreases end - start,
    {
        end = end - 1;
    }
    proof {
        assert forall|k: int| end - start <= k < rest.len() implies is_whitespace(#[trigger] rest[k]) by {
            assert(rest[k] == chars@[k + start]);
        }
        if end > start {
            assert(rest[end - start - 1] == chars@[end - 1]);
        }
        lemma_trim_end_at(rest, end - start);
        assert(rest.subrange(0, end - start) =~= s@.subrange(start as int, end as int));
    }
    string_from_range(&chars, start, end)
}

// ---------------------------------------------------------------------------
// Collapsing whitespace
// ---------------------------------------------------------------------------

/// A line break or a tab becomes a space; every other character stays.
pub open spec fn blank_out(c: char) -> char {
    if c == '\n' || c == '\t' {
        ' '
    } else {
        c
    }
}

/// Every run of whitespace in `s` becomes one space; `after_space` says
/// whether a space was emitted just before `s`, in which case a leading run
/// is dropped.
pub open spec fn collapse(s: Seq<char>, after_space: bool) -> Seq<char>
    decreases s.len(),
{
    if s.len() == 0 {
        Seq::empty()
    } else if is_whitespace(s[0]) {
        if after_space {
            collapse(s.drop_first(), true)
        } else {
            seq![' '] + collapse(s.drop_first(), true)
        }
    } else {
        seq![s[0]] + collapse(s.drop_first(), false)
    }
}

/// The cleaned form of a text: line breaks and tabs become spaces, every run
/// of whitespace becomes one space, and the ends are trimmed.
pub open spec fn cleaned(s: Seq<char>) -> Seq<char> {
    trim(collapse(s.map_values(|c: char| blank_out(c)), false))
}

/// Cleans a text scraped from a page: `'\n'` and `'\t'` become spaces, runs
/// of whitespace collapse to one space, and the result is trimmed.
pub fn clean_text(text: &str) -> (r: String)
    ensures
        r@ == cleaned(text@),
{
    let ghost blanked = text@.map_values(|c: char| blank_out(c));
    let mut result = String::new();
    let mut last_was_space = false;
    assert(blanked.skip(0) =~= blanked);
    assert(result@ + collapse(blanked, false) =~= collapse(blanked, false));
    for c in it: text.chars()
        invariant
            it.seq() == text@,
            blanked == text@.map_values(|c: char| blank_out(c)),
            result@ + collapse(blanked.skip(it.index()), last_was_space) == collapse(blanked, false),
    {
        let ghost i = it.index();
        let ghost rest = blanked.skip(i);
        assert(rest[0] == blank_out(c));
        assert(rest.drop_first() =~= blanked.skip(i + 1));
        let b = if c == '\n' || c == '\t' { ' ' } else { c };
        if char_is_whitespace(b) {
            if !last_was_space {
                push_char(&mut result, ' ');
                last_was_space = true;
            }
        } else {
            push_char(&mut result, b);
            last_was_space = false;
        }
        assert(result@ + collapse(blanked.skip(i + 1), last_was_space) == collapse(blanked, false));
    }
    assert(blanked.skip(text@.len() as int) =~= Seq::<char>::empty());
    assert(result@ + Seq::<char>::empty() =~= result@);
    trim_str(result.as_str())
}

// ---------------------------------------------------------------------------
// Champion names
// ---------------------------------------------------------------------------

/// The key of a champion's name as `clean_champion_name` computes it:
/// characters that are not alphanumeric are dropped, and the character that
/// follows a dropped one is put in ASCII lower case. `lower_next` says
/// whether a character was dropped just before `s`.
pub open spec fn name_key(s: Seq<char>, lower_next: bool) -> Seq<char>
    decreases s.len(),
{
    if s.len() == 0 {
        Seq::empty()
    } else if is_alphanumeric(s[0]) {
        seq![if lower_next { ascii_lower(s[0]) } else { s[0] }] + name_key(s.drop_first(), false)
    } else {
        name_key(s.drop_first(), true)
    }
}

/// The alphanumeric characters of `s`, in order.
pub open spec fn alphanumerics(s: Seq<char>) -> Seq<char>
    decreases s.len(),
{
    if s.len() == 0 {
        Seq::empty()
    } else if is_alphanumeric(s[0]) {
        seq![s[0]] + alphanumerics(s.drop_first())
    } else {
        alphanumerics(s.drop_first())
    }
}

/// `s` with every ASCII capital letter mapped to its small letter.
pub open spec fn ascii_lower_all(s: Seq<char>) -> Seq<char> {
    s.map_values(|c: char| ascii_lower(c))
}

/// Reduces a champion's display name to the key the image service uses for
/// it: characters that are not alphanumeric are dropped, and a character
/// that follows a dropped one is put in ASCII lower case
/// (`"Kai'Sa"` becomes `"Kaisa"`, `"Dr. Mundo"` becomes `"Drmundo"`).
pub fn clean_champion_name(name: &str) -> (r: String)
    ensures
        r@ == name_key(name@, false),
{
    let mut result = String::new();
    let mut lowercase_next = false;
    assert(name@.skip(0) =~= name@);
    assert(result@ + name_key(name@, false) =~= name_key(name@, false));
    for c in it: name.chars()
        invariant
            it.seq() == name@,
            result@ + name_key(name@.skip(it.index()), lowercase_next) == name_key(name@, false),
    {
        let ghost i = it.index();
        assert(name@.skip(i)[0] == c);
        assert(name@.skip(i).drop_first() =~= name@.skip(i + 1));
        if char_is_alphanumeric(c) {
            if lowercase_next {
                push_char(&mut result, ascii_lowercase(c));
                lowercase_next = false;
            } else {
                push_char(&mut result, c);
            }
        } else {
            lowercase_next = true;
        }
        assert(result@ + name_key(name@.skip(i + 1), lowercase_next) =~= name_key(name@, false));
    }
    assert(name@.skip(name@.len() as int) =~= Seq::<char>::empty());
    assert(result@ + Seq::<char>::empty() =~= result@);
    result
}

/// Keeps only the alphanumeric characters of a champion's name, in their
/// case (`"Kai'Sa"` becomes `"KaiSa"`).
pub fn clean_champion_name_for_image(name: &str) -> (r: String)
    ensures
        r@ == alphanumerics(name@),
{
    let mut result = String::new();
    assert(name@.skip(0) =~= name@);
    assert(result@ + alphanumerics(name@) =~= alphanumerics(name@));
    for c in it: name.chars()
        invariant
            it.seq() == name@,
            result@ + alphanumerics(name@.skip(it.index())) == alphanumerics(name@),
    {
        let ghost i = it.index();
        assert(name@.skip(i)[0] == c);
        assert(name@.skip(i).drop_first() =~= name@.skip(i + 1));
        if char_is_alphanumeric(c) {
            push_char(&mut result, c);
        }
        assert(result@ + alphanumerics(name@.skip(i + 1)) =~= alphanumerics(name@));
    }
    assert(name@.skip(name@.len() as int) =~= Seq::<char>::empty());
    assert(result@ + Seq::<char>::empty() =~= result@);
    result
}

// ---------------------------------------------------------------------------
// Properties of cleaned text
// ---------------------------------------------------------------------------

/// Every whitespace character of `x` is a plain space, and no two
/// whitespace characters stand next to each other.
pub open spec fn single_spaced(x: Seq<char>) -> bool {
    &&& forall|i: int| 0 <= i < x.len() && is_whitespace(#[trigger] x[i]) ==> x[i] == ' '
    &&& forall|i: int, j: int|
        0 <= i && j == i + 1 && j < x.len() ==> !(is_whitespace(#[trigger] x[i]) && is_whitespace(#[trigger] x[j]))
}

/// `x` holds no line break and no tab.
pub open spec fn no_breaks(x: Seq<char>) -> bool {
    forall|i: int| 0 <= i < x.len() ==> #[trigger] x[i] != '\n' && x[i] != '\t'
}

/// `x` is in the form that cleaning produces: single-spaced, free of line
/// breaks and tabs, and with no whitespace at either end.
pub open spec fn tidy(x: Seq<char>) -> bool {
    &&& single_spaced(x)
    &&& no_breaks(x)
    &&& x.len() > 0 ==> !is_whitespace(x[0]) && !is_whitespace(x.last())
}

proof fn lemma_collapse_shape(u: Seq<char>, after_space: bool)
    requires
        no_breaks(u),
    ensures
        single_spaced(collapse(u, after_space)),
        no_breaks(collapse(u, after_space)),
        after_space && collapse(u, after_space).len() > 0 ==> !is_whitespace(collapse(u, after_space)[0]),
    decreases u.len(),
{
    reveal_with_fuel(collapse, 2);
    if u.len() > 0 {
        let rest = u.drop_first();
        assert(no_breaks(rest)) by {
            assert forall|i: int| 0 <= i < rest.len() implies #[trigger] rest[i] != '\n' && rest[i] != '\t' by {
                assert(rest[i] == u[i + 1]);
            }
        }
        let ws0 = is_whitespace(u[0]);
        let flag = ws0;
        lemma_collapse_shape(rest, flag);
        let tail = collapse(rest, flag);
        let r = collapse(u, after_space);
        if ws0 && after_space {
            assert(r == tail);
        } else {
            let head = if ws0 { ' ' } else { u[0] };
            assert(r == seq![head] + tail);
            assert forall|i: int| 0 <= i < r.len() && is_whitespace(#[trigger] r[i]) implies r[i] == ' ' by {
                if i > 0 {
                    assert(r[i] == tail[i - 1]);
                }
            }
            assert forall|i: int, j: int|
                0 <= i && j == i + 1 && j < r.len() implies !(is_whitespace(#[trigger] r[i]) && is_whitespace(#[trigger] r[j])) by {
                if i > 0 {
                    assert(r[i] == tail[i - 1]);
                    assert(r[j] == tail[j - 1]);
                } else {
                    assert(r[j] == tail[0]);
                }
            }
            assert forall|i: int| 0 <= i < r.len() implies #[trigger] r[i] != '\n' && r[i] != '\t' by {
                if i > 0 {
                    assert(r[i] == tail[i - 1]);
                }
            }
        }
    }
}

proof fn lemma_drop_first_keeps(x: Seq<char>)
    requires
        x.len() > 0,
        single_spaced(x),
        no_breaks(x),
    ensures
        single_spaced(x.drop_first()),
        no_breaks(x.drop_first()),
{
    let y = x.drop_first();
    assert forall|i: int| 0 <= i < y.len() && is_whitespace(#[trigger] y[i]) implies y[i] == ' ' by {
        assert(y[i] == x[i + 1]);
    }
    assert forall|i: int, j: int|
        0 <= i && j == i + 1 && j < y.len() implies !(is_whitespace(#[trigger] y[i]) && is_whitespace(#[trigger] y[j])) by {
        assert(y[i] == x[i + 1]);
        assert(y[j] == x[j + 1]);
    }
    assert forall|i: int| 0 <= i < y.len() implies #[trigger] y[i] != '\n' && y[i] != '\t' by {
        assert(y[i] == x[i + 1]);
    }
}

proof fn lemma_drop_last_keeps(x: Seq<char>)
    requires
        x.len() > 0,
        single_spaced(x),
        no_breaks(x),
    ensures
        single_spaced(x.drop_last()),
        no_breaks(x.drop_last()),
{
    let y = x.drop_last();
    assert forall|i: int| 0 <= i < y.len() && is_whitespace(#[trigger] y[i]) implies y[i] == ' ' by {
        assert(y[i] == x[i]);
    }
    assert forall|i: int, j: int|
        0 <= i && j == i + 1 && j < y.len() implies !(is_whitespace(#[trigger] y[i]) && is_whitespace(#[trigger] y[j])) by {
        assert(y[i] == x[i]);
        assert(y[j] == x[j]);
    }
    assert forall|i: int| 0 <= i < y.len() implies #[trigger] y[i] != '\n' && y[i] != '\t' by {
        assert(y[i] == x[i]);
    }
}

proof fn lemma_trim_start_shape(x: Seq<char>)
    requires
        single_spaced(x),
        no_breaks(x),
    ensures
        single_spaced(trim_start(x)),
        no_breaks(trim_start(x)),
        trim_start(x).len() > 0 ==> !is_whitespace(trim_start(x)[0]),
    decreases x.len(),
{
    if x.len() > 0 && is_whitespace(x[0]) {
        lemma_drop_first_keeps(x);
        lemma_trim_start_shape(x.drop_first());
    }
}

proof fn lemma_trim_end_shape(x: Seq<char>)
    requires
        single_spaced(x),
        no_breaks(x),
        x.len() > 0 ==> !is_whitespace(x[0]),
    ensures
        tidy(trim_end(x)),
    decreases x.len(),
{
    if x.len() > 0 && is_whitespace(x.last()) {
        lemma_drop_last_keeps(x);
        let y = x.drop_last();
        if y.len() > 0 {
            assert(y[0] == x[0]);
        }
        lemma_trim_end_shape(y);
    }
}

/// Text after cleaning is tidy: single-spaced, free of line breaks and tabs,
/// and without whitespace at either end.
pub proof fn lemma_cleaned_is_tidy(s: Seq<char>)
    ensures
        tidy(cleaned(s)),
{
    let u = s.map_values(|c: char| blank_out(c));
    assert forall|i: int| 0 <= i < u.len() implies #[trigger] u[i] != '\n' && u[i] != '\t' by {
        assert(u[i] == blank_out(s[i]));
    }
    lemma_collapse_shape(u, false);
    lemma_trim_start_shape(collapse(u, false));
    lemma_trim_end_shape(trim_start(collapse(u, false)));
}

proof fn lemma_collapse_fixed(x: Seq<char>, after_space: bool)
    requires
        single_spaced(x),
        no_breaks(x),
        after_space && x.len() > 0 ==> !is_whitespace(x[0]),
    ensures
        collapse(x, after_space) == x,
    decreases x.len(),
{
    if x.len() > 0 {
        lemma_drop_first_keeps(x);
        let rest = x.drop_first();
        if is_whitespace(x[0]) {
            assert(x[0] == ' ');
            if rest.len() > 0 {
                assert(rest[0] == x[1]);
                assert(!(is_whitespace(x[0]) && is_whitespace(x[1])));
            }
            lemma_collapse_fixed(rest, true);
            assert(x =~= seq![' '] + rest);
        } else {
            lemma_collapse_fixed(rest, false);
            assert(x =~= seq![x[0]] + rest);
        }
    }
}

/// Tidy text is left as it is by cleaning.
pub proof fn lemma_tidy_is_clean(x: Seq<char>)
    requires
        tidy(x),
    ensures
        cleaned(x) == x,
{
    let u = x.map_values(|c: char| blank_out(c));
    assert(u =~= x) by {
        assert forall|i: int| 0 <= i < x.len() implies u[i] == x[i] by {
            assert(x[i] != '\n' && x[i] != '\t');
        }
    }
    lemma_collapse_fixed(x, false);
    assert(trim_start(x) == x);
    assert(trim_end(x) == x);
}

/// Cleaning is idempotent: cleaning a cleaned text changes nothing.
pub proof fn lemma_clean_text_idempotent(s: Seq<char>)
    ensures
        cleaned(cleaned(s)) == cleaned(s),
{
    lemma_cleaned_is_tidy(s);
    lemma_tidy_is_clean(cleaned(s));
}

// ---------------------------------------------------------------------------
// Properties of champion-name keys
// ---------------------------------------------------------------------------

proof fn lemma_ascii_lower_idempotent(c: char)
    ensures
        ascii_lower(ascii_lower(c)) == ascii_lower(c),
{
}

/// The two keys of a name differ only in ASCII case: put in ASCII lower
/// case, the key of `clean_champion_name` and the alphanumerics kept by
/// `clean_champion_name_for_image` are the same text.
pub proof fn lemma_name_keys_agree_up_to_case(s: Seq<char>, lower_next: bool)
    ensures
        ascii_lower_all(name_key(s, lower_next)) == ascii_lower_all(alphanumerics(s)),
        name_key(s, lower_next).len() == alphanumerics(s).len(),
    decreases s.len(),
{
    if s.len() > 0 {
        let rest = s.drop_first();
        if is_alphanumeric(s[0]) {
            lemma_name_keys_agree_up_to_case(rest, false);
            lemma_ascii_lower_idempotent(s[0]);
            let k = name_key(s, lower_next);
            let a = alphanumerics(s);
            assert(ascii_lower_all(k) =~= ascii_lower_all(a)) by {
                assert forall|i: int| 0 <= i < k.len() implies ascii_lower_all(k)[i] == ascii_lower_all(a)[i] by {
                    if i > 0 {
                        assert(k[i] == name_key(rest, false)[i - 1]);
                        assert(a[i] == alphanumerics(rest)[i - 1]);
                        assert(ascii_lower_all(name_key(rest, false))[i - 1] == ascii_lower_all(alphanumerics(rest))[i - 1]);
                    }
                }
            }
        } else {
            lemma_name_keys_agree_up_to_case(rest, true);
        }
    }
}

/// Everything kept for the image key is alphanumeric, and nothing is added.
pub proof fn lemma_alphanumerics_only(s: Seq<char>)
    ensures
        alphanumerics(s).len() <= s.len(),
        forall|i: int| 0 <= i < alphanumerics(s).len() ==> is_alphanumeric(#[trigger] alphanumerics(s)[i]),
    decreases s.len(),
{
    if s.len() > 0 {
        let rest = s.drop_first();
        lemma_alphanumerics_only(rest);
        let a = alphanumerics(s);
        if is_alphanumeric(s[0]) {
            assert forall|i: int| 0 <= i < a.len() implies is_alphanumeric(#[trigger] a[i]) by {
                if i > 0 {
                    assert(a[i] == alphanumerics(rest)[i - 1]);
                }
            }
        }
    }
}

/// With ASCII small letters alphanumeric (as `char::is_alphanumeric` has
/// them), every character of a name key is alphanumeric.
proof fn lemma_name_key_alphanumeric(s: Seq<char>, lower_next: bool)
    requires
        forall|c: char| 'a' <= c && c <= 'z' ==> #[trigger] is_alphanumeric(c),
    ensures
        forall|i: int| 0 <= i < name_key(s, lower_next).len() ==> is_alphanumeric(#[trigger] name_key(s, lower_next)[i]),
    decreases s.len(),
{
    if s.len() > 0 {
        let rest = s.drop_first();
        if is_alphanumeric(s[0]) {
            lemma_name_key_alphanumeric(rest, false);
            let head = if lower_next { ascii_lower(s[0]) } else { s[0] };
            assert(is_alphanumeric(head)) by {
                if lower_next && 'A' <= s[0] && s[0] <= 'Z' {
                    assert('a' <= ascii_lower(s[0]) && ascii_lower(s[0]) <= 'z');
                }
            }
            let k = name_key(s, lower_next);
            assert(k == seq![head] + name_key(rest, false));
            assert forall|i: int| 0 <= i < k.len() implies is_alphanumeric(#[trigger] k[i]) by {
                if i > 0 {
                    assert(k[i] == name_key(rest, false)[i - 1]);
                } else {
                    assert(k[0] == head);
                }
            }
        } else {
            lemma_name_key_alphanumeric(rest, true);
            assert(name_key(s, lower_next) == name_key(rest, true));
        }
    }
}

/// Keying a text made only of alphanumerics changes nothing.
proof fn lemma_name_key_of_alphanumerics(x: Seq<char>)
    requires
        forall|i: int| 0 <= i < x.len() ==> is_alphanumeric(#[trigger] x[i]),
    ensures
        name_key(x, false) == x,
    decreases x.len(),
{
    if x.len() > 0 {
        let rest = x.drop_first();
        assert forall|i: int| 0 <= i < rest.len() implies is_alphanumeric(#[trigger] rest[i]) by {
            assert(rest[i] == x[i + 1]);
        }
        assert(is_alphanumeric(x[0]));
        lemma_name_key_of_alphanumerics(rest);
        assert(x =~= seq![x[0]] + rest);
    }
}

/// Cleaning a champion's name twice gives what cleaning it once gives: the
/// key of a key is the key itself. This rests on ASCII small letters being
/// alphanumeric, as `char::is_alphanumeric` has them.
pub proof fn lemma_clean_champion_name_idempotent(s: Seq<char>)
    requires
        forall|c: char| 'a' <= c && c <= 'z' ==> #[trigger] is_alphanumeric(c),
    ensures
        name_key(name_key(s, false), false) == name_key(s, false),
{
    lemma_name_key_alphanumeric(s, false);
    lemma_name_key_of_alphanumerics(name_key(s, false));
}

// ---------------------------------------------------------------------------
// What the name keys keep, stated over the input
// ---------------------------------------------------------------------------

/// The image key keeps exactly the alphanumeric characters of the name, in
/// order: it is the name filtered by `char::is_alphanumeric`.
pub proof fn lemma_image_key_is_alphanumeric_filter(s: Seq<char>)
    ensures
        alphanumerics(s) == s.filter(|c: char| is_alphanumeric(c)),
    decreases s.len(),
{
    if s.len() > 0 {
        let rest = s.drop_first();
        lemma_image_key_is_alphanumeric_filter(rest);
        rest.lemma_filter_prepend(s[0], |c: char| is_alphanumeric(c));
        assert(s =~= seq![s[0]] + rest);
        if is_alphanumeric(s[0]) {
            assert(alphanumerics(s) == seq![s[0]] + alphanumerics(rest));
        } else {
            assert(alphanumerics(s) == alphanumerics(rest));
            assert(Seq::<char>::empty() + rest.filter(|c: char| is_alphanumeric(c)) =~= rest.filter(|c: char| is_alphanumeric(c)));
        }
    } else {
        reveal(Seq::filter);
    }
}

/// The character that the key gives for the alphanumeric character at index
/// `i` of `s`: an ASCII capital is put in lower case when the character
/// before it was dropped (or, at the start, when `lower_first`); any other
/// character is kept as it is.
spec fn expected_key_char(s: Seq<char>, i: int, lower_first: bool) -> char {
    let lowered = if i == 0 { lower_first } else { !is_alphanumeric(s[i - 1]) };
    if lowered && 'A' <= s[i] && s[i] <= 'Z' {
        ((s[i] as u32) + 32) as char
    } else {
        s[i]
    }
}

proof fn lemma_alphanumerics_before(s: Seq<char>, i: int)
    requires
        0 <= i < s.len(),
        is_alphanumeric(s[i]),
    ensures
        alphanumerics(s.take(i)).len() < alphanumerics(s).len(),
    decreases s.len(),
{
    let rest = s.drop_first();
    if i == 0 {
        assert(s.take(0) =~= Seq::<char>::empty());
    } else {
        let t = s.take(i);
        assert(t.drop_first() =~= rest.take(i - 1));
        assert(rest[i - 1] == s[i]);
        lemma_alphanumerics_before(rest, i - 1);
    }
}

proof fn lemma_name_key_positions(s: Seq<char>, lower_next: bool)
    ensures
        name_key(s, lower_next).len() == alphanumerics(s).len(),
        forall|i: int|
            0 <= i < s.len() && is_alphanumeric(#[trigger] s[i])
                ==> name_key(s, lower_next)[alphanumerics(s.take(i)).len() as int] == expected_key_char(s, i, lower_next),
    decreases s.len(),
{
    if s.len() > 0 {
        let x = s[0];
        let rest = s.drop_first();
        let f2 = !is_alphanumeric(x);
        lemma_name_key_positions(rest, f2);
        let key = name_key(s, lower_next);
        assert(key == if is_alphanumeric(x) {
            seq![if lower_next { ascii_lower(x) } else { x }] + name_key(rest, false)
        } else {
            name_key(rest, true)
        });
        assert forall|i: int|
            0 <= i < s.len() && is_alphanumeric(#[trigger] s[i])
                implies key[alphanumerics(s.take(i)).len() as int] == expected_key_char(s, i, lower_next) by {
            if i == 0 {
                assert(s.take(0) =~= Seq::<char>::empty());
                assert(alphanumerics(s.take(0)).len() == 0);
                assert(key[0] == if lower_next { ascii_lower(x) } else { x });
            } else {
                let t = s.take(i);
                assert(t.drop_first() =~= rest.take(i - 1));
                assert(t[0] == x);
                assert(rest[i - 1] == s[i]);
                assert(is_alphanumeric(rest[i - 1]));
                if i - 1 > 0 {
                    assert(rest[i - 2] == s[i - 1]);
                }
                assert(name_key(rest, f2)[alphanumerics(rest.take(i - 1)).len() as int]
                    == expected_key_char(rest, i - 1, f2));
                assert(expected_key_char(rest, i - 1, f2) == expected_key_char(s, i, lower_next));
                lemma_alphanumerics_before(rest, i - 1);
                let j = alphanumerics(rest.take(i - 1)).len() as int;
                if is_alphanumeric(x) {
                    assert(alphanumerics(t) == seq![x] + alphanumerics(rest.take(i - 1)));
                    assert(alphanumerics(t).len() == j + 1);
                    assert(key[j + 1] == name_key(rest, false)[j]);
                } else {
                    assert(alphanumerics(t) == alphanumerics(rest.take(i - 1)));
                    assert(key[j] == name_key(rest, true)[j]);
                }
            }
        }
    }
}

/// The key of a champion's name (`clean_champion_name`) keeps the
/// alphanumeric characters of the name, in order, one for one, and changes
/// only one thing: an ASCII capital letter that comes right after a dropped
/// character is put in lower case. Every other kept character, in
/// particular one that follows a kept character, stays as it is
/// (`"Jarvan IV"` gives `"JarvaniV"`). The character at index `i` of the
/// name lands at the index that counts the alphanumerics before it.
pub proof fn lemma_name_key_lowers_only_after_a_drop(s: Seq<char>)
    ensures
        name_key(s, false).len() == s.filter(|c: char| is_alphanumeric(c)).len(),
        forall|i: int|
            0 <= i < s.len() && is_alphanumeric(#[trigger] s[i]) ==> name_key(s, false)[s.take(i).filter(
                |c: char| is_alphanumeric(c),
            ).len() as int] == if i > 0 && !is_alphanumeric(s[i - 1]) && 'A' <= s[i] && s[i] <= 'Z' {
                ((s[i] as u32) + 32) as char
            } else {
                s[i]
            },
{
    lemma_name_key_positions(s, false);
    lemma_image_key_is_alphanumeric_filter(s);
    assert forall|i: int|
        0 <= i < s.len() && is_alphanumeric(#[trigger] s[i]) implies name_key(s, false)[s.take(i).filter(
            |c: char| is_alphanumeric(c),
        ).len() as int] == if i > 0 && !is_alphanumeric(s[i - 1]) && 'A' <= s[i] && s[i] <= 'Z' {
            ((s[i] as u32) + 32) as char
        } else {
            s[i]
        } by {
        lemma_image_key_is_alphanumeric_filter(s.take(i));
    }
}

// ---------------------------------------------------------------------------
// What cleaning keeps
// ---------------------------------------------------------------------------

proof fn lemma_blank_out_keeps_visible(s: Seq<char>)
    ensures
        s.map_values(|c: char| blank_out(c)).filter(|c: char| !is_whitespace(c)) == s.filter(|c: char| !is_whitespace(c)),
    decreases s.len(),
{
    if s.len() == 0 {
        assert(s.map_values(|c: char| blank_out(c)) =~= s);
    } else {
        let rest = s.drop_first();
        let u = s.map_values(|c: char| blank_out(c));
        lemma_blank_out_keeps_visible(rest);
        assert(u =~= seq![blank_out(s[0])] + rest.map_values(|c: char| blank_out(c)));
        assert(s =~= seq![s[0]] + rest);
        rest.lemma_filter_prepend(s[0], |c: char| !is_whitespace(c));
        rest.map_values(|c: char| blank_out(c)).lemma_filter_prepend(blank_out(s[0]), |c: char| !is_whitespace(c));
    }
}

proof fn lemma_collapse_keeps_visible(u: Seq<char>, after_space: bool)
    ensures
        collapse(u, after_space).filter(|c: char| !is_whitespace(c)) == u.filter(|c: char| !is_whitespace(c)),
    decreases u.len(),
{
    if u.len() == 0 {
        reveal(Seq::filter);
    } else {
        let rest = u.drop_first();
        assert(u =~= seq![u[0]] + rest);
        rest.lemma_filter_prepend(u[0], |c: char| !is_whitespace(c));
        if is_whitespace(u[0]) {
            lemma_collapse_keeps_visible(rest, true);
            if !after_space {
                collapse(rest, true).lemma_filter_prepend(' ', |c: char| !is_whitespace(c));
                assert(Seq::<char>::empty() + collapse(rest, true).filter(|c: char| !is_whitespace(c))
                    =~= collapse(rest, true).filter(|c: char| !is_whitespace(c)));
            }
            assert(Seq::<char>::empty() + rest.filter(|c: char| !is_whitespace(c))
                =~= rest.filter(|c: char| !is_whitespace(c)));
        } else {
            lemma_collapse_keeps_visible(rest, false);
            collapse(rest, false).lemma_filter_prepend(u[0], |c: char| !is_whitespace(c));
        }
    }
}

proof fn lemma_trim_start_keeps_visible(x: Seq<char>)
    ensures
        trim_start(x).filter(|c: char| !is_whitespace(c)) == x.filter(|c: char| !is_whitespace(c)),
    decreases x.len(),
{
    if x.len() > 0 && is_whitespace(x[0]) {
        let rest = x.drop_first();
        lemma_trim_start_keeps_visible(rest);
        assert(x =~= seq![x[0]] + rest);
        rest.lemma_filter_prepend(x[0], |c: char| !is_whitespace(c));
        assert(Seq::<char>::empty() + rest.filter(|c: char| !is_whitespace(c))
            =~= rest.filter(|c: char| !is_whitespace(c)));
    }
}

proof fn lemma_trim_end_keeps_visible(x: Seq<char>)
    ensures
        trim_end(x).filter(|c: char| !is_whitespace(c)) == x.filter(|c: char| !is_whitespace(c)),
    decreases x.len(),
{
    if x.len() > 0 && is_whitespace(x.last()) {
        lemma_trim_end_keeps_visible(x.drop_last());
        reveal(Seq::filter);
    }
}

/// Cleaning drops and changes only whitespace: the characters of the
/// cleaned text that are not whitespace are exactly those of the text, in
/// order.
pub proof fn lemma_clean_text_keeps_visible_characters(s: Seq<char>)
    ensures
        cleaned(s).filter(|c: char| !is_whitespace(c)) == s.filter(|c: char| !is_whitespace(c)),
{
    let u = s.map_values(|c: char| blank_out(c));
    lemma_blank_out_keeps_visible(s);
    lemma_collapse_keeps_visible(u, false);
    lemma_trim_start_keeps_visible(collapse(u, false));
    lemma_trim_end_keeps_visible(trim_start(collapse(u, false)));
}

} // verus!
