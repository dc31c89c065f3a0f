use vstd::prelude::*;

verus! {

/// The text of an output file holding `lines`: each line followed by `'\n'`.
pub open spec fn lines_text(lines: Seq<Seq<char>>) -> Seq<char>
    decreases lines.len(),
{
    if lines.len() == 0 {
        Seq::empty()
    } else {
        lines[0] + seq!['\n'] + lines_text(lines.drop_first())
    }
}

/// Index of the first `'\n'` in `s`, or `s.len()` when it holds none.
pub open spec fn first_newline(s: Seq<char>) -> nat
    decreases s.len(),
{
    if s.len() == 0 {
        0
    } else if s[0] == '\n' {
        0
    } else {
        1 + first_newline(s.drop_first())
    }
}

/// The lines of a text, each without its `'\n'`; a last line with no `'\n'`
/// after it counts too.
pub open spec fn split_lines(s: Seq<char>) -> Seq<Seq<char>>
    decreases s.len(),
{
    if s.len() == 0 {
        Seq::empty()
    } else if first_newline(s) >= s.len() {
        seq![s]
    } else {
        seq![s.subrange(0, first_newline(s) as int)] + split_lines(
            s.subrange(first_newline(s) + 1int, s.len() as int),
        )
    }
}

/// Whether no line of `lines` holds a `'\n'`.
pub open spec fn single_lines(lines: Seq<Seq<char>>) -> bool {
    forall|i: int, j: int| 0 <= i < lines.len() && 0 <= j < lines[i].len() ==> lines[i][j] != '\n'
}

proof fn lemma_lines_text_push(lines: Seq<Seq<char>>, l: Seq<char>)
    ensures
        lines_text(lines.push(l)) == lines_text(lines) + l + seq!['\n'],
    decreases lines.len(),
{
    if lines.len() == 0 {
        assert(lines.push(l).drop_first() =~= Seq::<Seq<char>>::empty());
        assert(lines.push(l)[0] == l);
        assert(lines_text(Seq::<Seq<char>>::empty()) == Seq::<char>::empty());
        assert(lines_text(lines.push(l)) =~= l + seq!['\n']);
    } else {
        assert(lines.push(l).drop_first() =~= lines.drop_first().push(l));
        lemma_lines_text_push(lines.drop_first(), l);
        assert(lines_text(lines.push(l)) =~= lines_text(lines) + l + seq!['\n']);
    }
}

proof fn lemma_first_newline(l: Seq<char>, rest: Seq<char>)
    requires
        forall|j: int| 0 <= j < l.len() ==> l[j] != '\n',
    ensures
        first_newline(l + seq!['\n'] + rest) == l.len(),
    decreases l.len(),
{
    let s = l + seq!['\n'] + rest;
    if l.len() > 0 {
        assert(s[0] == l[0]);
        assert(s.drop_first() =~= l.drop_first() + seq!['\n'] + rest);
        lemma_first_newline(l.drop_first(), rest);
    } else {
        assert(s[0] == '\n');
    }
}

/// Splitting the text of an output file at its newlines gives back its
/// lines, as many and in the same order, when no line holds a newline.
pub proof fn lemma_split_lines_text(lines: Seq<Seq<char>>)
    requires
        single_lines(lines),
    ensures
        split_lines(lines_text(lines)) == lines,
        split_lines(lines_text(lines)).len() == lines.len(),
    decreases lines.len(),
{
    if lines.len() > 0 {
        let rest = lines.drop_first();
        assert(single_lines(rest)) by {
            assert forall|i: int, j: int|
                0 <= i < rest.len() && 0 <= j < rest[i].len() implies rest[i][j] != '\n' by {
                assert(rest[i] == lines[i + 1]);
            }
        }
        lemma_split_lines_text(rest);
        let l = lines[0];
        assert(forall|j: int| 0 <= j < l.len() ==> l[j] != '\n') by {
            assert forall|j: int| 0 <= j < l.len() implies l[j] != '\n' by {
                assert(lines[0][j] != '\n');
            }
        }
        let s = lines_text(lines);
        let t = lines_text(rest);
        assert(s == l + seq!['\n'] + t);
        lemma_first_newline(l, t);
        assert(s.subrange(0, l.len() as int) =~= l);
        assert(s.subrange(l.len() + 1int, s.len() as int) =~= t);
        assert(split_lines(s) =~= seq![l] + rest);
        assert(lines =~= seq![l] + rest);
    } else {
        assert(lines_text(lines) =~= Seq::<char>::empty());
    }
}

/// The text of an output file holding `lines`, one per line, in order.
pub fn render_lines(lines: &Vec<String>) -> (r: String)
    ensures
        r@ == lines_text(lines@.map_values(|l: String| l@)),
{
    let ghost views = lines@.map_values(|l: String| l@);
    let mut r = String::new();
    let mut i: usize = 0;
    proof {
        reveal_strlit("\n");
        assert(views.take(0) =~= Seq::<Seq<char>>::empty());
    }
    while i < lines.len()
        invariant
            i <= lines.len(),
            views == lines@.map_values(|l: String| l@),
            r@ == lines_text(views.take(i as int)),
            "\n"@ == seq!['\n'],
        decreases lines.len() - i,
    {
        proof {
            lemma_lines_text_push(views.take(i as int), views[i as int]);
            assert(views.take(i as int).push(views[i as int]) =~= views.take(i + 1));
        }
        r.append(lines[i].as_str());
        r.append("\n");
        i = i + 1;
    }
    proof {
        assert(views.take(i as int) =~= views);
    }
    r
}

} // verus!
