//! Scanning of text: whitespace, words and lines.
//!
//! Every function here is stated over the characters of a string, its view as a
//! `Seq<char>`; positions count characters, not bytes.
use vstd::prelude::*;
use vstd::string::*;

verus! {

/// Whether `c` has the Unicode `White_Space` property.
pub open spec fn is_space(c: char) -> bool {
    let n = c as u32;
    ||| 0x09 <= n <= 0x0D
    ||| n == 0x20
    ||| n == 0x85
    ||| n == 0xA0
    ||| n == 0x1680
    ||| 0x2000 <= n <= 0x200A
    ||| n == 0x2028
    ||| n == 0x2029
    ||| n == 0x202F
    ||| n == 0x205F
    ||| n == 0x3000
}

/// The first position at or after `i` whose character is `c`, or `s.len()` if there is none.
pub open spec fn find_char(s: Seq<char>, c: char, i: int) -> int
    decreases s.len() - i,
{
    if 0 <= i < s.len() && s[i] != c {
        find_char(s, c, i + 1)
    } else {
        i
    }
}

/// The first position at or after `i` that holds no whitespace, or `s.len()`.
pub open spec fn skip_space(s: Seq<char>, i: int) -> int
    decreases s.len() - i,
{
    if 0 <= i < s.len() && is_space(s[i]) {
        skip_space(s, i + 1)
    } else {
        i
    }
}

/// The first position at or after `i` that holds whitespace, or `s.len()`.
pub open spec fn skip_word(s: Seq<char>, i: int) -> int
    decreases s.len() - i,
{
    if 0 <= i < s.len() && !is_space(s[i]) {
        skip_word(s, i + 1)
    } else {
        i
    }
}

/// `find_char` stays within `s`, stops on `c`, and passes over nothing that is `c`.
pub proof fn lemma_find_char(s: Seq<char>, c: char, i: int)
    requires
        0 <= i <= s.len(),
    ensures
        i <= find_char(s, c, i) <= s.len(),
        find_char(s, c, i) < s.len() ==> s[find_char(s, c, i)] == c,
        forall|j: int| i <= j < find_char(s, c, i) ==> s[j] != c,
    decreases s.len() - i,
{
    if i < s.len() && s[i] != c {
        lemma_find_char(s, c, i + 1);
    }
}

/// `skip_space` stays within `s` and passes over whitespace, all of it.
pub proof fn lemma_skip_space(s: Seq<char>, i: int)
    requires
        0 <= i <= s.len(),
    ensures
        i <= skip_space(s, i) <= s.len(),
        skip_space(s, i) < s.len() ==> !is_space(s[skip_space(s, i)]),
        forall|j: int| i <= j < skip_space(s, i) ==> is_space(s[j]),
    decreases s.len() - i,
{
    if i < s.len() && is_space(s[i]) {
        lemma_skip_space(s, i + 1);
    }
}

/// `skip_word` stays within `s` and passes over what is not whitespace, all of it.
pub proof fn lemma_skip_word(s: Seq<char>, i: int)
    requires
        0 <= i <= s.len(),
    ensures
        i <= skip_word(s, i) <= s.len(),
        skip_word(s, i) < s.len() ==> is_space(s[skip_word(s, i)]),
        forall|j: int| i <= j < skip_word(s, i) ==> !is_space(s[j]),
        i < s.len() && !is_space(s[i]) ==> i < skip_word(s, i),
    decreases s.len() - i,
{
    if i < s.len() && !is_space(s[i]) {
        lemma_skip_word(s, i + 1);
    }
}

/// `s` without the whitespace at its end.
pub open spec fn trim_end(s: Seq<char>) -> Seq<char>
    decreases s.len(),
{
    if s.len() > 0 && is_space(s.last()) {
        trim_end(s.drop_last())
    } else {
        s
    }
}

/// `s` without the whitespace at its start and at its end.
pub open spec fn trimmed(s: Seq<char>) -> Seq<char> {
    trim_end(s.skip(skip_space(s, 0)))
}

/// The words of `s` from position `i` on: its maximal runs of characters that
/// are not whitespace, in order.
pub open spec fn words_from(s: Seq<char>, i: int) -> Seq<Seq<char>>
    decreases s.len() - i,
{
    let a = skip_space(s, i);
    let b = skip_word(s, a);
    if 0 <= i <= a < s.len() {
        proof {
            lemma_skip_space(s, i);
            lemma_skip_word(s, a);
        }
        seq![s.subrange(a, b)] + words_from(s, b)
    } else {
        Seq::empty()
    }
}

/// The words of `s`: what splitting at whitespace leaves.
pub open spec fn words(s: Seq<char>) -> Seq<Seq<char>> {
    words_from(s, 0)
}

/// No word is empty, and no word holds whitespace.
pub proof fn lemma_words(s: Seq<char>, i: int)
    requires
        0 <= i <= s.len(),
    ensures
        forall|k: int|
            0 <= k < words_from(s, i).len() ==> (#[trigger] words_from(s, i)[k]).len() > 0,
        forall|k: int, j: int|
            0 <= k < words_from(s, i).len() && 0 <= j < words_from(s, i)[k].len() ==> !is_space(
                #[trigger] words_from(s, i)[k][j],
            ),
    decreases s.len() - i,
{
    let a = skip_space(s, i);
    let b = skip_word(s, a);
    lemma_skip_space(s, i);
    if a < s.len() {
        lemma_skip_word(s, a);
        lemma_words(s, b);
        let rest = words_from(s, b);
        assert forall|k: int| 0 <= k < words_from(s, i).len() implies (#[trigger] words_from(
            s,
            i,
        )[k]).len() > 0 by {
            if k > 0 {
                assert(words_from(s, i)[k] == rest[k - 1]);
            }
        }
        assert forall|k: int, j: int|
            0 <= k < words_from(s, i).len() && 0 <= j < words_from(s, i)[k].len() implies !is_space(
            #[trigger] words_from(s, i)[k][j],
        ) by {
            if k > 0 {
                assert(words_from(s, i)[k] == rest[k - 1]);
            } else {
                assert(words_from(s, i)[0][j] == s[a + j]);
            }
        }
    }
}

/// The lines of `s` from position `i` on. A line ends at a line feed; a
/// carriage return directly before that line feed belongs to the line ending.
pub open spec fn lines_from(s: Seq<char>, i: int) -> Seq<Seq<char>>
    decreases s.len() - i,
{
    let e = find_char(s, '\n', i);
    if 0 <= i < s.len() {
        proof {
            lemma_find_char(s, '\n', i);
        }
        let raw = s.subrange(i, e);
        if e < s.len() {
            let line = if raw.len() > 0 && raw.last() == '\r' {
                raw.drop_last()
            } else {
                raw
            };
            seq![line] + lines_from(s, e + 1)
        } else {
            seq![raw]
        }
    } else {
        Seq::empty()
    }
}

/// The lines of `s`. A final line needs no line feed, and an empty text has no line.
pub open spec fn lines(s: Seq<char>) -> Seq<Seq<char>> {
    lines_from(s, 0)
}

/// The text that holds the lines `ls`, each ended by a line feed.
pub open spec fn text_of(ls: Seq<Seq<char>>) -> Seq<char>
    decreases ls.len(),
{
    if ls.len() == 0 {
        Seq::empty()
    } else {
        text_of(ls.drop_last()) + ls.last() + seq!['\n']
    }
}

/// Whether `c` is whitespace, as `char::is_whitespace` has it.
pub fn is_whitespace(c: char) -> (r: bool)
    ensures
        r == is_space(c),
{
    let n: u32 = c as u32;
    (0x09 <= n && n <= 0x0D) || n == 0x20 || n == 0x85 || n == 0xA0 || n == 0x1680 || (0x2000 <= n
        && n <= 0x200A) || n == 0x2028 || n == 0x2029 || n == 0x202F || n == 0x205F || n == 0x3000
}

/// The characters of `s`, one by one.
pub fn chars_of(s: &str) -> (r: Vec<char>)
    ensures
        r@ == s@,
{
    let mut r: Vec<char> = Vec::new();
    for c in it: s.chars()
        invariant
            r@ == it.seq().take(it.index()),
    {
        r.push(c);
    }
    r
}

/// The first position at or after `from` where `cs` holds `c`, or the length of `cs`.
pub fn find(cs: &Vec<char>, c: char, from: usize) -> (r: usize)
    ensures
        r == find_char(cs@, c, from as int),
        from <= cs.len() ==> from <= r <= cs.len(),
{
    let n: usize = cs.len();
    let mut i: usize = from;
    while i < n && cs[i] != c
        invariant
            n == cs.len(),
            from <= i,
            from <= n ==> i <= n,
            find_char(cs@, c, i as int) == find_char(cs@, c, from as int),
        decreases n - i,
    {
        i += 1;
    }
    i
}

/// Whether `cs` begins with the characters of `prefix`.
pub fn starts_with(cs: &Vec<char>, prefix: &str) -> (r: bool)
    ensures
        r == prefix@.is_prefix_of(cs@),
{
    let ps = chars_of(prefix);
    let n: usize = ps.len();
    if n > cs.len() {
        return false;
    }
    let mut i: usize = 0;
    while i < n
        invariant
            ps@ == prefix@,
            n == ps.len(),
            n <= cs.len(),
            0 <= i <= n,
            forall|j: int| 0 <= j < i ==> cs@[j] == ps@[j],
        decreases n - i,
    {
        if cs[i] != ps[i] {
            assert(cs@.subrange(0, n as int)[i as int] != ps@[i as int]);
            return false;
        }
        i += 1;
    }
    assert(ps@ =~= cs@.subrange(0, n as int));
    true
}

/// `s` without the whitespace around it, as `str::trim` gives it.
pub fn trim(s: &str) -> (r: &str)
    ensures
        r@ == trimmed(s@),
{
    let cs = chars_of(s);
    let n: usize = cs.len();
    let mut a: usize = 0;
    while a < n && is_whitespace(cs[a])
        invariant
            n == cs.len(),
            0 <= a <= n,
            skip_space(cs@, a as int) == skip_space(cs@, 0),
        decreases n - a,
    {
        a += 1;
    }
    let mut b: usize = n;
    assert(cs@.subrange(a as int, n as int) == s@.skip(a as int));
    while b > a && is_whitespace(cs[b - 1])
        invariant
            n == cs.len(),
            a <= b <= n,
            trim_end(cs@.subrange(a as int, b as int)) == trim_end(cs@.subrange(a as int, n as int)),
        decreases b,
    {
        assert(cs@.subrange(a as int, b as int).drop_last() == cs@.subrange(a as int, b - 1));
        b -= 1;
    }
    s.substring_char(a, b)
}

/// Splits `s` at whitespace, as `str::split_whitespace` does.
pub fn split_whitespace(s: &str) -> (r: Vec<String>)
    ensures
        r.deep_view() == words(s@),
{
    let cs = chars_of(s);
    let n: usize = cs.len();
    let mut r: Vec<String> = Vec::new();
    let mut i: usize = 0;
    loop
        invariant
            cs@ == s@,
            n == cs.len(),
            0 <= i <= n,
            r.deep_view() + words_from(s@, i as int) == words(s@),
        ensures
            r.deep_view() == words(s@),
        decreases n - i,
    {
        let ghost i0 = i as int;
        while i < n && is_whitespace(cs[i])
            invariant
                cs@ == s@,
                n == cs.len(),
                i0 <= i <= n,
                skip_space(s@, i as int) == skip_space(s@, i0),
            decreases n - i,
        {
            i += 1;
        }
        if i >= n {
            break ;
        }
        let a: usize = i;
        while i < n && !is_whitespace(cs[i])
            invariant
                cs@ == s@,
                n == cs.len(),
                a <= i <= n,
                skip_word(s@, i as int) == skip_word(s@, a as int),
            decreases n - i,
        {
            i += 1;
        }
        let word = s.substring_char(a, i).to_owned();
        let ghost done = r.deep_view();
        let ghost w = word@;
        r.push(word);
        proof {
            assert(r.deep_view() == done.push(w));
            assert(done + (seq![w] + words_from(s@, i as int)) == done.push(w) + words_from(
                s@,
                i as int,
            ));
        }
    }
    r
}

/// Splits `s` into its lines, as `str::lines` does.
pub fn split_lines(s: &str) -> (r: Vec<String>)
    ensures
        r.deep_view() == lines(s@),
{
    let cs = chars_of(s);
    let n: usize = cs.len();
    let mut r: Vec<String> = Vec::new();
    let mut i: usize = 0;
    while i < n
        invariant
            cs@ == s@,
            n == cs.len(),
            0 <= i <= n,
            r.deep_view() + lines_from(s@, i as int) == lines(s@),
        decreases n - i,
    {
        let a: usize = i;
        i = find(&cs, '\n', a);
        let cut: usize = if i < n && i > a && cs[i - 1] == '\r' {
            i - 1
        } else {
            i
        };
        let line = s.substring_char(a, cut).to_owned();
        let ghost done = r.deep_view();
        let ghost l = line@;
        r.push(line);
        proof {
            assert(find_char(s@, '\n', a as int) == i);
            assert(r.deep_view() == done.push(l));
            if i < n {
                if i > a {
                    assert(s@.subrange(a as int, i as int).drop_last() == s@.subrange(
                        a as int,
                        i - 1,
                    ));
                }
                assert(lines_from(s@, a as int) == seq![l] + lines_from(s@, i + 1));
                assert(done + (seq![l] + lines_from(s@, i + 1)) == done.push(l) + lines_from(
                    s@,
                    i + 1,
                ));
            } else {
                assert(lines_from(s@, a as int) == seq![l]);
                assert(done + seq![l] == done.push(l) + lines_from(s@, n as int));
            }
        }
        if i < n {
            i += 1;
        }
    }
    r
}

/// The text of the lines `ls`, each ended by a line feed.
pub fn join_lines(ls: &Vec<String>) -> (r: String)
    ensures
        r@ == text_of(ls.deep_view()),
{
    let mut r = String::new();
    let mut i: usize = 0;
    proof {
        reveal_strlit("\n");
        assert("\n"@ == seq!['\n']);
        assert(ls.deep_view().take(0) == Seq::<Seq<char>>::empty());
    }
    while i < ls.len()
        invariant
            0 <= i <= ls.len(),
            "\n"@ == seq!['\n'],
            r@ == text_of(ls.deep_view().take(i as int)),
        decreases ls.len() - i,
    {
        proof {
            let d = ls.deep_view();
            assert(d.take(i + 1).drop_last() == d.take(i as int));
            assert(d.take(i + 1).last() == ls[i as int]@);
        }
        r.append(ls[i].as_str());
        r.append("\n");
        i += 1;
    }
    assert(ls.deep_view().take(ls.len() as int) == ls.deep_view());
    r
}

} // verus!
