//! The pure part of the saved-document listing: selecting the names of
//! saved documents from a directory listing and sorting them, plus the
//! fixed sample documents used to seed an empty storage directory.
//!
//! Reading the storage directory and writing files is left to the caller;
//! these functions work on plain lists of names and contents.

use vstd::prelude::*;
use vstd::seq_lib::lemma_multiset_commutative;
use vstd::string::{StrSliceExecFns, StringExecFns};

verus! {

broadcast use vstd::seq_lib::group_to_multiset_ensures, vstd::string::group_string_axioms;

/// Code-point lexicographic order on character sequences.
pub open spec fn chars_le(a: Seq<char>, b: Seq<char>) -> bool
    decreases a.len(),
{
    if a.len() == 0 {
        true
    } else if b.len() == 0 {
        false
    } else if (a[0] as u32) < (b[0] as u32) {
        true
    } else if (b[0] as u32) < (a[0] as u32) {
        false
    } else {
        chars_le(a.skip(1), b.skip(1))
    }
}

/// `chars_le` is total: any two names are comparable.
pub proof fn lemma_chars_le_total(a: Seq<char>, b: Seq<char>)
    ensures
        chars_le(a, b) || chars_le(b, a),
    decreases a.len(),
{
    if a.len() != 0 && b.len() != 0 && !((a[0] as u32) < (b[0] as u32)) && !((b[0] as u32) < (
    a[0] as u32)) {
        lemma_chars_le_total(a.skip(1), b.skip(1));
    }
}

/// `chars_le` is transitive.
pub proof fn lemma_chars_le_transitive(a: Seq<char>, b: Seq<char>, c: Seq<char>)
    requires
        chars_le(a, b),
        chars_le(b, c),
    ensures
        chars_le(a, c),
    decreases a.len(),
{
    if a.len() != 0 && b.len() != 0 && c.len() != 0 {
        if !((a[0] as u32) < (b[0] as u32)) && !((b[0] as u32) < (a[0] as u32)) && !((
        b[0] as u32) < (c[0] as u32)) && !((c[0] as u32) < (b[0] as u32)) {
            lemma_chars_le_transitive(a.skip(1), b.skip(1), c.skip(1));
        }
    }
}

/// Whether a file name ends in `.json`.
pub open spec fn is_json_name(name: Seq<char>) -> bool {
    &&& name.len() >= 5
    &&& name[name.len() - 5] == '.'
    &&& name[name.len() - 4] == 'j'
    &&& name[name.len() - 3] == 's'
    &&& name[name.len() - 2] == 'o'
    &&& name[name.len() - 1] == 'n'
}

/// The subsequence of `names` that name saved documents, i.e. end in
/// `.json`, in their original order.
pub open spec fn json_names(names: Seq<Seq<char>>) -> Seq<Seq<char>>
    decreases names.len(),
{
    if names.len() == 0 {
        Seq::empty()
    } else {
        let rest = json_names(names.drop_last());
        if is_json_name(names.last()) {
            rest.push(names.last())
        } else {
            rest
        }
    }
}

/// Whether a list of names is sorted by `chars_le`.
pub open spec fn sorted_names(names: Seq<Seq<char>>) -> bool {
    forall|i: int, j: int| 0 <= i < j < names.len() ==> #[trigger] chars_le(names[i], names[j])
}

/// Whether a file name ends in `.json`.
pub fn has_json_extension(name: &String) -> (r: bool)
    ensures
        r == is_json_name(name@),
{
    let n = name.as_str().unicode_len();
    if n < 5 {
        return false;
    }
    let s = name.as_str();
    s.get_char(n - 5) == '.' && s.get_char(n - 4) == 'j' && s.get_char(n - 3) == 's' && s.get_char(
        n - 2,
    ) == 'o' && s.get_char(n - 1) == 'n'
}

/// Compares two names in code-point lexicographic order.
pub fn string_le(a: &String, b: &String) -> (r: bool)
    ensures
        r == chars_le(a@, b@),
{
    let na = a.as_str().unicode_len();
    let nb = b.as_str().unicode_len();
    let mut i: usize = 0;
    proof {
        assert(a@.skip(0) =~= a@);
        assert(b@.skip(0) =~= b@);
    }
    while i < na && i < nb
        invariant
            i <= na && i <= nb,
            na == a@.len() && nb == b@.len(),
            chars_le(a@, b@) == chars_le(a@.skip(i as int), b@.skip(i as int)),
        decreases na - i,
    {
        let ca = a.as_str().get_char(i) as u32;
        let cb = b.as_str().get_char(i) as u32;
        if ca < cb {
            return true;
        }
        if cb < ca {
            return false;
        }
        proof {
            assert(a@.skip(i as int).skip(1) =~= a@.skip(i + 1));
            assert(b@.skip(i as int).skip(1) =~= b@.skip(i + 1));
        }
        i = i + 1;
    }
    na <= nb
}

/// Inserting an element anywhere in a sequence adds exactly that element
/// to its multiset of elements.
proof fn lemma_insert_to_multiset<A>(s: Seq<A>, p: int, x: A)
    requires
        0 <= p <= s.len(),
    ensures
        s.insert(p, x).to_multiset() =~= s.to_multiset().insert(x),
{
    broadcast use vstd::multiset::group_multiset_axioms;

    let front = s.subrange(0, p);
    let back = s.subrange(p, s.len() as int);
    assert(s =~= front + back);
    lemma_multiset_commutative(front, back);
    lemma_multiset_commutative(front.push(x), back);
}

/// Inserting `x` at a position that everything before precedes and that
/// precedes everything after keeps a sorted list of saved names sorted,
/// and all names keep their `.json` ending.
proof fn lemma_sorted_insert(s: Seq<Seq<char>>, p: int, x: Seq<char>)
    requires
        sorted_names(s),
        0 <= p <= s.len(),
        forall|k: int| 0 <= k < p ==> chars_le(#[trigger] s[k], x),
        p < s.len() ==> chars_le(x, s[p]),
        is_json_name(x),
        forall|k: int| 0 <= k < s.len() ==> is_json_name(#[trigger] s[k]),
    ensures
        sorted_names(s.insert(p, x)),
        forall|k: int| 0 <= k < s.insert(p, x).len() ==> is_json_name(#[trigger] s.insert(p, x)[k]),
{
    s.insert_ensures(p, x);
    let t = s.insert(p, x);
    assert forall|a: int, b: int| 0 <= a < b < t.len() implies #[trigger] chars_le(
        t[a],
        t[b],
    ) by {
        if b < p {
            assert(chars_le(s[a], s[b]));
        } else if b == p {
            assert(t[a] == s[a]);
            assert(chars_le(s[a], x));
        } else if a < p {
            assert(t[b] == s[b - 1]);
            assert(chars_le(s[a], s[b - 1]));
        } else if a == p {
            assert(t[b] == s[b - 1]);
            assert(chars_le(x, s[p]));
            if b - 1 > p {
                lemma_chars_le_transitive(x, s[p], s[b - 1]);
            }
        } else {
            assert(t[a] == s[a - 1]);
            assert(t[b] == s[b - 1]);
            assert(chars_le(s[a - 1], s[b - 1]));
        }
    }
    assert forall|k: int| 0 <= k < t.len() implies is_json_name(#[trigger] t[k]) by {
        if k < p {
            assert(t[k] == s[k]);
        } else if k == p {
            assert(t[k] == x);
        } else {
            assert(t[k] == s[k - 1]);
        }
    }
}

/// Selects the saved document names from a directory listing: exactly the
/// names ending in `.json`, sorted in code-point lexicographic order.
pub fn saved_files(names: &Vec<String>) -> (r: Vec<String>)
    ensures
        sorted_names(r.deep_view()),
        r.deep_view().to_multiset() == json_names(names.deep_view()).to_multiset(),
        forall|k: int| 0 <= k < r.deep_view().len() ==> is_json_name(#[trigger] r.deep_view()[k]),
{
    let mut out: Vec<String> = Vec::new();
    let mut i: usize = 0;
    proof {
        assert(names.deep_view().take(0) =~= Seq::<Seq<char>>::empty());
    }
    while i < names.len()
        invariant
            i <= names@.len(),
            names.deep_view().len() == names@.len(),
            sorted_names(out.deep_view()),
            out.deep_view().to_multiset() == json_names(
                names.deep_view().take(i as int),
            ).to_multiset(),
            forall|k: int|
                0 <= k < out.deep_view().len() ==> is_json_name(#[trigger] out.deep_view()[k]),
        decreases names@.len() - i,
    {
        proof {
            let taken = names.deep_view().take(i + 1);
            assert(taken.drop_last() =~= names.deep_view().take(i as int));
            assert(taken.last() == names.deep_view()[i as int]);
            assert(names.deep_view()[i as int] == names@[i as int]@);
        }
        if has_json_extension(&names[i]) {
            let x = names[i].clone();
            let mut p: usize = 0;
            while p < out.len() && string_le(&out[p], &x)
                invariant
                    p <= out@.len(),
                    out.deep_view().len() == out@.len(),
                    forall|k: int|
                        0 <= k < p ==> chars_le(#[trigger] out.deep_view()[k], x@),
                decreases out@.len() - p,
            {
                proof {
                    assert(out.deep_view()[p as int] == out@[p as int]@);
                }
                p = p + 1;
            }
            proof {
                if p < out@.len() {
                    assert(out.deep_view()[p as int] == out@[p as int]@);
                    lemma_chars_le_total(out@[p as int]@, x@);
                    assert(chars_le(x@, out.deep_view()[p as int]));
                }
            }
            let ghost old_vec = out@;
            let ghost old_dv = out.deep_view();
            out.insert(p, x);
            proof {
                let dv = out.deep_view();
                old_vec.insert_ensures(p as int, x);
                old_dv.insert_ensures(p as int, x@);
                assert(dv =~= old_dv.insert(p as int, x@)) by {
                    assert forall|k: int| 0 <= k < dv.len() implies dv[k] == old_dv.insert(
                        p as int,
                        x@,
                    )[k] by {
                        assert(dv[k] == out@[k]@);
                    }
                }
                lemma_insert_to_multiset(old_dv, p as int, x@);
                lemma_sorted_insert(old_dv, p as int, x@);
            }
        }
        i = i + 1;
    }
    proof {
        assert(names.deep_view().take(i as int) =~= names.deep_view());
    }
    out
}

/// The fixed sample documents used to seed an empty storage directory:
/// file names paired with their JSON contents. The caller writes each
/// pair to storage.
pub fn initialize_sample_files() -> (r: Vec<(String, String)>)
    ensures
        r@.len() == 2,
        r@[0].0@ == "sample_circle.json"@,
        r@[0].1@ == sample_circle_content(),
        r@[1].0@ == "sample_square.json"@,
        r@[1].1@ == sample_square_content(),
{
    let mut r: Vec<(String, String)> = Vec::new();
    r.push((String::from_str("sample_circle.json"), String::from_str(SAMPLE_CIRCLE_JSON)));
    r.push((String::from_str("sample_square.json"), String::from_str(SAMPLE_SQUARE_JSON)));
    r
}

/// The contents of the sample circle document.
pub const SAMPLE_CIRCLE_JSON: &'static str = "{\n  \"html\": \"<svg viewBox=\\\"0 0 70 70\\\" xmlns=\\\"http://www.w3.org/2000/svg\\\">\\n<circle cx=\\\"35\\\" cy=\\\"35\\\" r=\\\"25\\\" fill=\\\"lightblue\\\" stroke=\\\"darkblue\\\" stroke-width=\\\"2\\\"/>\\n<text x=\\\"35\\\" y=\\\"40\\\" text-anchor=\\\"middle\\\" font-size=\\\"8\\\">Circle Doc</text>\\n</svg>\"\n}";

/// The contents of the sample square document.
pub const SAMPLE_SQUARE_JSON: &'static str = "{\n  \"html\": \"<svg viewBox=\\\"0 0 70 70\\\" xmlns=\\\"http://www.w3.org/2000/svg\\\">\\n<rect x=\\\"15\\\" y=\\\"15\\\" width=\\\"40\\\" height=\\\"40\\\" fill=\\\"lightcoral\\\" stroke=\\\"darkred\\\" stroke-width=\\\"2\\\"/>\\n<text x=\\\"35\\\" y=\\\"40\\\" text-anchor=\\\"middle\\\" font-size=\\\"8\\\">Square Doc</text>\\n</svg>\"\n}";

/// The contents of the sample circle document.
pub open spec fn sample_circle_content() -> Seq<char> {
    SAMPLE_CIRCLE_JSON@
}

/// The contents of the sample square document.
pub open spec fn sample_square_content() -> Seq<char> {
    SAMPLE_SQUARE_JSON@
}

} // verus!
