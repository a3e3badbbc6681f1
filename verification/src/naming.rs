//! Filename and path derivation: the stem of an untrusted client filename,
//! its extension, the storage paths keyed by request identifier, and decimal
//! rendering for disambiguating archive entry names.

use vstd::prelude::*;

verus! {

/// Index of the last occurrence of `c` in `s`, or -1.
pub open spec fn spec_last_index(s: Seq<char>, c: char) -> int
    decreases s.len(),
{
    if s.len() == 0 {
        -1
    } else if s.last() == c {
        s.len() - 1
    } else {
        spec_last_index(s.drop_last(), c)
    }
}

proof fn lemma_last_index_step(s: Seq<char>, c: char, i: int)
    requires
        0 <= i < s.len(),
    ensures
        spec_last_index(s.take(i + 1), c) == (if s[i] == c {
            i
        } else {
            spec_last_index(s.take(i), c)
        }),
{
    assert(s.take(i + 1).drop_last() =~= s.take(i));
    assert(s.take(i + 1).last() == s[i]);
}

fn last_index_of(s: &str, c: char) -> (r: Option<usize>)
    ensures
        match r {
            Some(i) => spec_last_index(s@, c) == i,
            None => spec_last_index(s@, c) == -1,
        },
{
    let n = s.unicode_len();
    let mut i: usize = 0;
    let mut found: Option<usize> = None;
    while i < n
        invariant
            n == s@.len(),
            i <= n,
            match found {
                Some(f) => spec_last_index(s@.take(i as int), c) == f && f < i,
                None => spec_last_index(s@.take(i as int), c) == -1,
            },
        decreases n - i,
    {
        let ch = s.get_char(i);
        proof {
            lemma_last_index_step(s@, c, i as int);
        }
        if ch == c {
            found = Some(i);
        }
        i = i + 1;
    }
    proof {
        assert(s@.take(n as int) =~= s@);
    }
    found
}

/// The final path component: everything after the last '/'.
pub open spec fn spec_base_name(s: Seq<char>) -> Seq<char> {
    s.subrange(spec_last_index(s, '/') + 1, s.len() as int)
}

/// The stem of a base name: everything before the last '.', except that a
/// leading dot (a hidden file) or no dot at all leaves the name whole.
pub open spec fn spec_stem_of_base(b: Seq<char>) -> Seq<char> {
    let q = spec_last_index(b, '.');
    if q <= 0 {
        b
    } else {
        b.subrange(0, q)
    }
}

/// The stem of an untrusted client filename.
pub open spec fn spec_stem(s: Seq<char>) -> Seq<char> {
    spec_stem_of_base(spec_base_name(s))
}

/// The extension of a base name, possibly empty; `None` when the name has no
/// dot or only a leading one.
pub open spec fn spec_extension(s: Seq<char>) -> Option<Seq<char>> {
    let b = spec_base_name(s);
    let q = spec_last_index(b, '.');
    if q <= 0 {
        Option::None
    } else {
        Option::Some(b.subrange(q + 1, b.len() as int))
    }
}

proof fn lemma_last_index_range(s: Seq<char>, c: char)
    ensures
        -1 <= spec_last_index(s, c) < s.len(),
    decreases s.len(),
{
    if s.len() > 0 && s.last() != c {
        lemma_last_index_range(s.drop_last(), c);
    }
}

fn base_name(s: &str) -> (r: String)
    ensures
        r@ == spec_base_name(s@),
{
    let n = s.unicode_len();
    proof {
        lemma_last_index_range(s@, '/');
    }
    match last_index_of(s, '/') {
        Some(p) => s.substring_char(p + 1, n).to_owned(),
        None => s.substring_char(0, n).to_owned(),
    }
}

/// The stem of a client-supplied filename, as `std`'s path stem rules read
/// it on the final component.
pub fn file_stem(s: &str) -> (r: String)
    ensures
        r@ == spec_stem(s@),
{
    let b = base_name(s);
    let bs = b.as_str();
    let n = bs.unicode_len();
    proof {
        lemma_last_index_range(bs@, '.');
    }
    match last_index_of(bs, '.') {
        Some(q) => {
            if q == 0 {
                bs.substring_char(0, n).to_owned()
            } else {
                bs.substring_char(0, q).to_owned()
            }
        },
        None => bs.substring_char(0, n).to_owned(),
    }
}

/// The extension of a client-supplied filename, with "png" standing in when
/// none can be read.
pub fn extension_or_png(s: &str) -> (r: String)
    ensures
        match spec_extension(s@) {
            Option::Some(e) => r@ == e,
            Option::None => r@ == "png"@,
        },
{
    let b = base_name(s);
    let bs = b.as_str();
    let n = bs.unicode_len();
    proof {
        lemma_last_index_range(bs@, '.');
    }
    match last_index_of(bs, '.') {
        Some(q) => {
            if q == 0 {
                String::from_str("png")
            } else {
                bs.substring_char(q + 1, n).to_owned()
            }
        },
        None => String::from_str("png"),
    }
}

/// The suggested download name: the stem with a forced vector extension, a
/// fallback standing in for an empty stem.
pub open spec fn spec_svg_name(name: Seq<char>, fallback: Seq<char>) -> Seq<char> {
    (if spec_stem(name).len() == 0 {
        fallback
    } else {
        spec_stem(name)
    }) + ".svg"@
}

pub fn svg_name_for(name: &str, fallback: &str) -> (r: String)
    ensures
        r@ == spec_svg_name(name@, fallback@),
{
    let st = file_stem(name);
    let mut out = String::new();
    if st.as_str().unicode_len() == 0 {
        out.append(fallback);
    } else {
        out.append(st.as_str());
    }
    out.append(".svg");
    out
}

/// Relies on String::push (std): appends exactly the given character.
#[verifier::external_body]
fn push_char(s: &mut String, c: char)
    ensures
        final(s)@ == old(s)@.push(c),
{
    s.push(c);
}

/// Decimal digits of `n`, most significant first.
pub open spec fn spec_decimal(n: nat) -> Seq<char>
    decreases n,
{
    if n < 10 {
        seq![((48 + n) as char)]
    } else {
        spec_decimal(n / 10).push(((48 + n % 10) as char))
    }
}

/// Render a number in decimal; used to disambiguate archive entry names.
pub fn decimal_string(n: u64) -> (r: String)
    ensures
        r@ == spec_decimal(n as nat),
    decreases n,
{
    let d: u8 = (n % 10) as u8;
    let c: char = (48 + d) as char;
    if n < 10 {
        let mut out = String::new();
        push_char(&mut out, c);
        out
    } else {
        let mut out = decimal_string(n / 10);
        push_char(&mut out, c);
        out
    }
}

/// Storage path of an uploaded input: `uploads/<id>.<ext>`.
pub fn upload_path(file_id: &str, ext: &str) -> (r: String)
    ensures
        r@ == "uploads/"@ + file_id@ + "."@ + ext@,
{
    let mut out = String::new();
    out.append("uploads/");
    out.append(file_id);
    out.append(".");
    out.append(ext);
    out
}

/// Storage path of a produced artifact: `output/<id>.svg`.
pub fn output_path(file_id: &str) -> (r: String)
    ensures
        r@ == "output/"@ + file_id@ + ".svg"@,
{
    let mut out = String::new();
    out.append("output/");
    out.append(file_id);
    out.append(".svg");
    out
}

} // verus!
