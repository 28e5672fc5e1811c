//! Splitting a command line into the program and its arguments.
use vstd::prelude::*;
use vstd::std_specs::iter::IteratorSpec;
use crate::wm_core::string_push;

verus! {

/// The characters with the Unicode `White_Space` property.
pub open spec fn is_white_space(c: char) -> bool {
    let v = c as u32;
    ||| 0x09 <= v <= 0x0d
    ||| v == 0x20
    ||| v == 0x85
    ||| v == 0xa0
    ||| v == 0x1680
    ||| 0x2000 <= v <= 0x200a
    ||| v == 0x2028
    ||| v == 0x2029
    ||| v == 0x202f
    ||| v == 0x205f
    ||| v == 0x3000
}

/// Whether `c` has the Unicode `White_Space` property: the test that
/// `char::is_whitespace` makes.
fn char_is_whitespace(c: char) -> (b: bool)
    ensures
        b == is_white_space(c),
{
    let v = c as u32;
    (0x09 <= v && v <= 0x0d) || v == 0x20 || v == 0x85 || v == 0xa0 || v == 0x1680 || (0x2000
        <= v && v <= 0x200a) || v == 0x2028 || v == 0x2029 || v == 0x202f || v == 0x205f || v
        == 0x3000
}

/// The words found so far and the word being read, after reading `s` from
/// the left: a white-space character ends the word being read (if any), any
/// other character extends it.
pub open spec fn scan(s: Seq<char>) -> (Seq<Seq<char>>, Seq<char>)
    decreases s.len(),
{
    if s.len() == 0 {
        (Seq::empty(), Seq::empty())
    } else {
        let (done, cur) = scan(s.drop_last());
        let c = s.last();
        if is_white_space(c) {
            if cur.len() > 0 {
                (done.push(cur), Seq::empty())
            } else {
                (done, cur)
            }
        } else {
            (done, cur.push(c))
        }
    }
}

/// The words of `s`: its maximal runs of characters other than white
/// space, from left to right.
pub open spec fn words(s: Seq<char>) -> Seq<Seq<char>> {
    let (done, cur) = scan(s);
    if cur.len() > 0 {
        done.push(cur)
    } else {
        done
    }
}

/// The views of a list of strings.
pub open spec fn string_views(v: Seq<String>) -> Seq<Seq<char>> {
    v.map_values(|w: String| w@)
}

/// Splits `s` into its words: its maximal runs of characters other than
/// white space, from left to right.
pub fn split_words(s: &str) -> (out: Vec<String>)
    ensures
        string_views(out@) == words(s@),
{
    broadcast use vstd::string::axiom_spec_iter, vstd::string::next_postcondition;

    let ghost text = s@;
    let mut it = s.chars();
    let mut done: Vec<String> = Vec::new();
    let mut cur = String::new();
    let ghost mut read: int = 0;
    assert(text.take(0) =~= Seq::<char>::empty());
    loop
        invariant
            0 <= read <= text.len(),
            it.remaining() == text.skip(read),
            (string_views(done@), cur@) == scan(text.take(read)),
        ensures
            read == text.len(),
            (string_views(done@), cur@) == scan(text),
        decreases text.len() - read,
    {
        match it.next() {
            Some(c) => {
                proof {
                    assert(text[read] == c);
                    assert(text.take(read + 1).drop_last() =~= text.take(read));
                    assert(text.take(read + 1).last() == c);
                    assert(text.skip(read).drop_first() =~= text.skip(read + 1));
                }
                let ghost before_done = done@;
                let ghost before_cur = cur@;
                if char_is_whitespace(c) {
                    if !cur.as_str().is_empty() {
                        let word = cur.clone();
                        cur = String::new();
                        done.push(word);
                        proof {
                            assert(string_views(done@) =~= string_views(before_done).push(before_cur));
                        }
                    }
                } else {
                    string_push(&mut cur, c);
                }
                proof {
                    read = read + 1;
                }
            },
            None => {
                proof {
                    assert(text.take(read) =~= text);
                }
                break ;
            },
        }
    }
    if !cur.as_str().is_empty() {
        let ghost before_done = done@;
        done.push(cur);
        proof {
            assert(string_views(done@) =~= string_views(before_done).push(scan(text).1));
        }
    }
    done
}

/// Splits a command line into the program (its first word) and the
/// arguments (the other words); `None` where it has no word.
pub fn split_command(cmd: &str) -> (r: Option<(String, Vec<String>)>)
    ensures
        match r {
            Some((program, args)) => {
                &&& words(cmd@).len() > 0
                &&& program@ == words(cmd@)[0]
                &&& string_views(args@) == words(cmd@).drop_first()
            },
            None => words(cmd@).len() == 0,
        },
{
    let mut parts = split_words(cmd);
    if parts.len() == 0 {
        return None;
    }
    let ghost all = parts@;
    let program = parts.remove(0);
    proof {
        assert(string_views(parts@) =~= string_views(all).drop_first());
        assert(string_views(all)[0] == all[0]@);
    }
    Some((program, parts))
}

/// Every word is non-empty and holds no white space.
pub proof fn lemma_words_are_clean(s: Seq<char>)
    ensures
        forall|i: int|
            0 <= i < words(s).len() ==> {
                &&& #[trigger] words(s)[i].len() > 0
                &&& forall|j: int| 0 <= j < words(s)[i].len() ==> !is_white_space(words(s)[i][j])
            },
{
    lemma_scan_clean(s);
}

proof fn lemma_scan_clean(s: Seq<char>)
    ensures
        forall|i: int|
            0 <= i < scan(s).0.len() ==> {
                &&& #[trigger] scan(s).0[i].len() > 0
                &&& forall|j: int| 0 <= j < scan(s).0[i].len() ==> !is_white_space(scan(s).0[i][j])
            },
        forall|j: int| 0 <= j < scan(s).1.len() ==> !is_white_space(#[trigger] scan(s).1[j]),
    decreases s.len(),
{
    if s.len() > 0 {
        let prev = s.drop_last();
        lemma_scan_clean(prev);
        let (done, cur) = scan(prev);
        let c = s.last();
        if is_white_space(c) {
            if cur.len() > 0 {
                assert forall|i: int| 0 <= i < scan(s).0.len() implies {
                    &&& #[trigger] scan(s).0[i].len() > 0
                    &&& forall|j: int| 0 <= j < scan(s).0[i].len() ==> !is_white_space(scan(s).0[i][j])
                } by {
                    if i < done.len() {
                        assert(scan(s).0[i] == done[i]);
                    } else {
                        assert(scan(s).0[i] == cur);
                    }
                }
            }
        } else {
            assert forall|j: int| 0 <= j < scan(s).1.len() implies !is_white_space(#[trigger] scan(s).1[j]) by {
                if j < cur.len() {
                    assert(scan(s).1[j] == cur[j]);
                }
            }
        }
    }
}

/// Reading `y` after a state with no word under way adds the words that
/// `y` alone gives.
proof fn lemma_scan_append(x: Seq<char>, y: Seq<char>)
    requires
        scan(x).1.len() == 0,
    ensures
        scan(x + y).0 == scan(x).0 + scan(y).0,
        scan(x + y).1 == scan(y).1,
    decreases y.len(),
{
    if y.len() == 0 {
        assert(x + y =~= x);
        assert(scan(x).0 + scan(y).0 =~= scan(x).0);
    } else {
        let y1 = y.drop_last();
        let c = y.last();
        lemma_scan_append(x, y1);
        assert((x + y1).push(c) =~= x + y);
        assert(y1.push(c) =~= y);
        assert((x + y1).push(c).drop_last() =~= x + y1);
        assert(y1.push(c).drop_last() =~= y1);
        let (d1, c1) = scan(y1);
        if is_white_space(c) && c1.len() > 0 {
            assert((scan(x).0 + d1).push(c1) =~= scan(x).0 + d1.push(c1));
        }
    }
}

/// Splitting keeps every word: the words of two texts joined by a
/// white-space character are the words of the first followed by those of
/// the second, however many there are.
pub proof fn lemma_words_of_joined(a: Seq<char>, c: char, b: Seq<char>)
    requires
        is_white_space(c),
    ensures
        words(a + seq![c] + b) == words(a) + words(b),
{
    assert(a.push(c).drop_last() =~= a);
    assert(a.push(c) =~= a + seq![c]);
    assert(scan(a + seq![c]).0 == words(a));
    lemma_scan_append(a + seq![c], b);
    let (d, cur) = scan(b);
    if cur.len() > 0 {
        assert((words(a) + d).push(cur) =~= words(a) + d.push(cur));
    }
}

/// The words of a text with no white space are that text alone (none
/// where it is empty).
pub proof fn lemma_words_of_one_word(w: Seq<char>)
    requires
        forall|j: int| 0 <= j < w.len() ==> !is_white_space(#[trigger] w[j]),
    ensures
        words(w) == (if w.len() > 0 { seq![w] } else { Seq::<Seq<char>>::empty() }),
{
    lemma_scan_clear(w);
}

/// A text with no white space leaves no finished word and is itself the
/// word under way.
proof fn lemma_scan_clear(w: Seq<char>)
    requires
        forall|j: int| 0 <= j < w.len() ==> !is_white_space(#[trigger] w[j]),
    ensures
        scan(w).0.len() == 0,
        scan(w).1 == w,
    decreases w.len(),
{
    if w.len() > 0 {
        let w1 = w.drop_last();
        assert forall|j: int| 0 <= j < w1.len() implies !is_white_space(#[trigger] w1[j]) by {
            assert(w1[j] == w[j]);
        }
        lemma_scan_clear(w1);
        assert(w1.push(w.last()).drop_last() =~= w1);
        assert(w1.push(w.last()) =~= w);
    }
}

} // verus!
