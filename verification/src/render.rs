//! What is written: lines behind their annotation fields.
use crate::text::text_of;
use vstd::prelude::*;
use vstd::string::*;

verus! {

/// The characters of the field `prefix`: none where there is no field.
pub open spec fn field(prefix: Option<Seq<char>>) -> Seq<char> {
    match prefix {
        Some(p) => p,
        None => Seq::empty(),
    }
}

/// The line `line` behind its field.
pub open spec fn annotated(prefix: Option<Seq<char>>, line: Seq<char>) -> Seq<char> {
    field(prefix) + line
}

/// What is written for a line: the line behind its field, and a line feed.
pub open spec fn rendered(prefix: Option<Seq<char>>, line: Seq<char>) -> Seq<char> {
    annotated(prefix, line) + seq!['\n']
}

/// Each field in front of the line of the same rank. Fields and lines are
/// paired as far as both reach.
pub open spec fn paired(prefixes: Seq<Option<Seq<char>>>, lines: Seq<Seq<char>>) -> Seq<Seq<char>> {
    Seq::new(
        if prefixes.len() <= lines.len() {
            prefixes.len()
        } else {
            lines.len()
        },
        |i: int| annotated(prefixes[i], lines[i]),
    )
}

/// The lines `annotated` without the fields `prefixes` in front of them.
pub open spec fn unfielded(prefixes: Seq<Option<Seq<char>>>, annotated: Seq<Seq<char>>) -> Seq<
    Seq<char>,
> {
    Seq::new(annotated.len(), |i: int| annotated[i].skip(field(prefixes[i]).len() as int))
}

/// What is written for one line: the line behind its field, and a line feed.
pub fn render_line(prefix: &Option<String>, line: &str) -> (r: String)
    ensures
        r@ == rendered(prefix.deep_view(), line@),
{
    proof {
        reveal_strlit("\n");
        assert("\n"@ == seq!['\n']);
    }
    let mut r = match prefix {
        Some(p) => p.clone(),
        None => String::new(),
    };
    r.append(line);
    r.append("\n");
    r
}

/// The text of the lines `lines`, each behind the field of the same rank in
/// `prefixes`, as far as both reach.
pub fn pair_lines(prefixes: &Vec<Option<String>>, lines: &Vec<String>) -> (r: String)
    ensures
        r@ == text_of(paired(prefixes.deep_view(), lines.deep_view())),
{
    let n: usize = if prefixes.len() <= lines.len() {
        prefixes.len()
    } else {
        lines.len()
    };
    let ghost all = paired(prefixes.deep_view(), lines.deep_view());
    let mut r = String::new();
    let mut i: usize = 0;
    assert(all.take(0) == Seq::<Seq<char>>::empty());
    while i < n
        invariant
            0 <= i <= n,
            n == all.len(),
            n <= prefixes.len(),
            n <= lines.len(),
            all == paired(prefixes.deep_view(), lines.deep_view()),
            r@ == text_of(all.take(i as int)),
        decreases n - i,
    {
        let one = render_line(&prefixes[i], lines[i].as_str());
        proof {
            assert(all.take(i + 1).drop_last() == all.take(i as int));
            assert(prefixes.deep_view()[i as int] == prefixes[i as int].deep_view());
            assert(lines.deep_view()[i as int] == lines[i as int]@);
            assert(all.take(i + 1).last() == annotated(
                prefixes[i as int].deep_view(),
                lines[i as int]@,
            ));
            assert(r@ + one@ == r@ + all.take(i + 1).last() + seq!['\n']);
        }
        r.append(one.as_str());
        i += 1;
    }
    assert(all.take(n as int) == all);
    r
}

} // verus!
