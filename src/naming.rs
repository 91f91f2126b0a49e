use vstd::prelude::*;
use vstd::string::*;

verus! {

/// The marker `@2x` starts at position `i` of `s`.
pub open spec fn marker_at(s: Seq<char>, i: int) -> bool {
    0 <= i && i + 3 <= s.len() && s[i] == '@' && s[i + 1] == '2' && s[i + 2] == 'x'
}

/// `s` contains the marker `@2x` somewhere.
pub open spec fn has_marker(s: Seq<char>) -> bool {
    exists|i: int| marker_at(s, i)
}

/// `s` with every occurrence of `@2x` removed, scanning from the left and
/// never letting two removed occurrences overlap.
pub open spec fn strip_marker(s: Seq<char>) -> Seq<char>
    decreases s.len(),
{
    if s.len() < 3 {
        s
    } else if marker_at(s, 0) {
        strip_marker(s.subrange(3, s.len() as int))
    } else {
        seq![s[0]] + strip_marker(s.subrange(1, s.len() as int))
    }
}

/// Whether the text `s` (a path or a file name) contains the marker `@2x`.
pub fn contains_marker(s: &str) -> (r: bool)
    ensures
        r == has_marker(s@),
{
    let n = s.unicode_len();
    let mut i: usize = 0;
    while n - i >= 3
        invariant
            n == s@.len(),
            i <= n,
            forall|j: int| 0 <= j < i ==> !marker_at(s@, j),
        decreases n - i,
    {
        if s.get_char(i) == '@' && s.get_char(i + 1) == '2' && s.get_char(i + 2) == 'x' {
            assert(marker_at(s@, i as int));
            return true;
        }
        i = i + 1;
    }
    proof {
        lemma_no_marker_left(s@, i as int);
    }
    false
}

/// No marker can start in the last two positions.
proof fn lemma_no_marker_left(s: Seq<char>, i: int)
    requires
        i + 3 > s.len(),
        forall|j: int| 0 <= j < i ==> !marker_at(s, j),
    ensures
        !has_marker(s),
{
}

/// Removing the marker never makes text longer.
proof fn lemma_strip_not_longer(s: Seq<char>)
    ensures
        strip_marker(s).len() <= s.len(),
    decreases s.len(),
{
    if s.len() >= 3 {
        lemma_strip_not_longer(s.subrange(3, s.len() as int));
        lemma_strip_not_longer(s.subrange(1, s.len() as int));
    }
}

/// Removing the marker from text that contains it makes the text strictly shorter.
proof fn lemma_strip_shortens(s: Seq<char>)
    requires
        has_marker(s),
    ensures
        strip_marker(s).len() < s.len(),
    decreases s.len(),
{
    let i = choose|i: int| marker_at(s, i);
    if marker_at(s, 0) {
        lemma_strip_not_longer(s.subrange(3, s.len() as int));
    } else {
        let t = s.subrange(1, s.len() as int);
        assert(marker_at(t, i - 1));
        lemma_strip_shortens(t);
    }
}

/// Text without the marker is left as it is.
proof fn lemma_strip_unmarked(s: Seq<char>)
    requires
        !has_marker(s),
    ensures
        strip_marker(s) == s,
    decreases s.len(),
{
    if s.len() >= 3 {
        let t = s.subrange(1, s.len() as int);
        assert forall|j: int| !marker_at(t, j) by {
            if marker_at(t, j) {
                assert(marker_at(s, j + 1));
            }
        }
        assert(!marker_at(s, 0));
        lemma_strip_unmarked(t);
        assert(seq![s[0]] + t =~= s);
    }
}

/// Removing the marker from a file name: for every name that contains `@2x`, the derived
/// name is the name with each occurrence of `@2x` removed, and it differs from the name.
/// A name without the marker is left unchanged.
pub proof fn lemma_derived_name(name: Seq<char>)
    ensures
        has_marker(name) ==> strip_marker(name) != name,
        has_marker(name) ==> strip_marker(name).len() < name.len(),
        !has_marker(name) ==> strip_marker(name) == name,
{
    if has_marker(name) {
        lemma_strip_shortens(name);
    } else {
        lemma_strip_unmarked(name);
    }
}

/// Unfolds `strip_marker` on the suffix of `s` that starts at `i`.
proof fn lemma_strip_step(s: Seq<char>, i: int)
    requires
        0 <= i < s.len(),
    ensures
        marker_at(s, i) ==> strip_marker(s.subrange(i, s.len() as int)) == strip_marker(
            s.subrange(i + 3, s.len() as int),
        ),
        !marker_at(s, i) ==> strip_marker(s.subrange(i, s.len() as int)) == seq![s[i]]
            + strip_marker(s.subrange(i + 1, s.len() as int)),
{
    let t = s.subrange(i, s.len() as int);
    if t.len() >= 3 {
        assert(t.subrange(3, t.len() as int) =~= s.subrange(i + 3, s.len() as int));
        assert(t.subrange(1, t.len() as int) =~= s.subrange(i + 1, s.len() as int));
        assert(marker_at(t, 0) == marker_at(s, i));
    } else {
        assert(!marker_at(s, i));
        let u = s.subrange(i + 1, s.len() as int);
        assert(u.len() < 3);
        assert(t =~= seq![s[i]] + u);
    }
}

/// The file name with every `@2x` removed, as `str::replace("@2x", "")` gives it.
pub fn strip_marker_from(name: &str) -> (r: String)
    ensures
        r@ == strip_marker(name@),
{
    let n = name.unicode_len();
    let mut out = String::new();
    let mut i: usize = 0;
    proof {
        assert(name@.subrange(0, n as int) =~= name@);
        assert(out@ + strip_marker(name@) =~= strip_marker(name@));
    }
    while i < n
        invariant
            n == name@.len(),
            i <= n,
            out@ + strip_marker(name@.subrange(i as int, n as int)) == strip_marker(name@),
        decreases n - i,
    {
        proof {
            lemma_strip_step(name@, i as int);
        }
        if n - i >= 3 && name.get_char(i) == '@' && name.get_char(i + 1) == '2' && name.get_char(
            i + 2,
        ) == 'x' {
            i = i + 3;
        } else {
            let c = name.substring_char(i, i + 1);
            proof {
                assert(c@ =~= seq![name@[i as int]]);
                assert(out@ + c@ + strip_marker(name@.subrange(i + 1, n as int)) =~= out@
                    + strip_marker(name@.subrange(i as int, n as int)));
            }
            out.append(c);
            i = i + 1;
        }
    }
    proof {
        assert(name@.subrange(n as int, n as int).len() == 0);
        assert(out@ + seq![] =~= out@);
    }
    out
}

/// The name under which the half-size image of the file `name` is written: `name` with
/// every `@2x` removed. There is none when `name` has no marker, since the derived name
/// would then be the file's own name.
pub fn derived_file_name(name: &str) -> (r: Option<String>)
    ensures
        r is Some <==> has_marker(name@),
        r matches Some(d) ==> d@ == strip_marker(name@) && d@ != name@,
{
    if contains_marker(name) {
        let d = strip_marker_from(name);
        proof {
            lemma_derived_name(name@);
        }
        Some(d)
    } else {
        None
    }
}

} // verus!
