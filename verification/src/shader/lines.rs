use crate::text::{
    from_chars, is_whitespace, is_ws, push_char, push_spaces, push_str, spaces, to_chars,
    trim_start, trim_start_chars,
};
use crate::shader::joined;
use itertools::Itertools;
use vstd::prelude::*;

verus! {

broadcast use vstd::string::group_string_axioms;

/// The separators a text is cut after.
#[derive(Clone, Copy)]
pub enum Separators {
    /// `{`, `}` and `;`: the ends of WGSL statements and blocks.
    Statement,
    /// `,`: the end of a field or argument.
    Comma,
}

/// Whether `c` is one of `sep`'s characters.
pub open spec fn is_separator(sep: Separators, c: char) -> bool {
    match sep {
        Separators::Statement => c == '{' || c == '}' || c == ';',
        Separators::Comma => c == ',',
    }
}

fn separator(sep: Separators, c: char) -> (r: bool)
    ensures
        r == is_separator(sep, c),
{
    match sep {
        Separators::Statement => c == '{' || c == '}' || c == ';',
        Separators::Comma => c == ',',
    }
}

/// The finished pieces and the open piece after reading `s` left to right,
/// closing a piece after every separator.
pub open spec fn split_state(s: Seq<char>, sep: Separators) -> (Seq<Seq<char>>, Seq<char>)
    decreases s.len(),
{
    if s.len() == 0 {
        (Seq::empty(), Seq::empty())
    } else {
        let (done, cur) = split_state(s.drop_last(), sep);
        let cur2 = cur.push(s.last());
        if is_separator(sep, s.last()) {
            (done.push(cur2), Seq::empty())
        } else {
            (done, cur2)
        }
    }
}

/// `s` cut after each separator, the separator kept at the end of its piece,
/// and no empty last piece (`str::split_inclusive`).
pub open spec fn split_inclusive(s: Seq<char>, sep: Separators) -> Seq<Seq<char>> {
    let (done, cur) = split_state(s, sep);
    if cur.len() > 0 {
        done.push(cur)
    } else {
        done
    }
}

/// Computes `split_inclusive`.
pub fn split_inclusive_chars(s: &[char], sep: Separators) -> (r: Vec<Vec<char>>)
    ensures
        r@.map_values(|p: Vec<char>| p@) == split_inclusive(s@, sep),
{
    let mut done: Vec<Vec<char>> = Vec::new();
    let mut cur: Vec<char> = Vec::new();
    let mut i: usize = 0;
    while i < s.len()
        invariant
            i <= s@.len(),
            (done@.map_values(|p: Vec<char>| p@), cur@) == split_state(s@.take(i as int), sep),
        decreases s@.len() - i,
    {
        let c = s[i];
        assert(s@.take(i + 1).drop_last() =~= s@.take(i as int));
        cur.push(c);
        if separator(sep, c) {
            let piece = cur;
            cur = Vec::new();
            done.push(piece);
            assert(done@.map_values(|p: Vec<char>| p@) =~= split_state(s@.take(i + 1), sep).0);
            assert(cur@ =~= split_state(s@.take(i + 1), sep).1);
        } else {
            assert(done@.map_values(|p: Vec<char>| p@) =~= split_state(s@.take(i + 1), sep).0);
        }
        i = i + 1;
    }
    assert(s@.take(s@.len() as int) =~= s@);
    if cur.len() > 0 {
        done.push(cur);
        assert(done@.map_values(|p: Vec<char>| p@) =~= split_inclusive(s@, sep));
    }
    done
}

/// The words of `s`: its maximal runs of non-white-space characters.
pub open spec fn words_state(s: Seq<char>) -> (Seq<Seq<char>>, Seq<char>)
    decreases s.len(),
{
    if s.len() == 0 {
        (Seq::empty(), Seq::empty())
    } else {
        let (done, cur) = words_state(s.drop_last());
        if is_ws(s.last()) {
            if cur.len() > 0 {
                (done.push(cur), Seq::empty())
            } else {
                (done, Seq::empty())
            }
        } else {
            (done, cur.push(s.last()))
        }
    }
}

/// The words of `s` in order (`str::split_whitespace`).
pub open spec fn words(s: Seq<char>) -> Seq<Seq<char>> {
    let (done, cur) = words_state(s);
    if cur.len() > 0 {
        done.push(cur)
    } else {
        done
    }
}

/// The items of `list` with `sep` between each two of them.
pub open spec fn seq_join(list: Seq<Seq<char>>, sep: Seq<char>) -> Seq<char>
    decreases list.len(),
{
    if list.len() == 0 {
        Seq::empty()
    } else if list.len() == 1 {
        list[0]
    } else {
        seq_join(list.drop_last(), sep) + sep + list.last()
    }
}

/// Cuts `s` into its words with `str::split_whitespace`.
#[verifier::external_body]
fn split_whitespace_words(s: &str) -> (r: Vec<String>)
    ensures
        r@.map_values(|w: String| w@) == words(s@),
{
    s.split_whitespace().map(|w| w.to_string()).collect()
}

/// Joins `items` with `sep` between each two of them, with `Itertools::join`.
#[verifier::external_body]
fn join_with(items: &Vec<String>, sep: &str) -> (r: String)
    ensures
        r@ == seq_join(items@.map_values(|w: String| w@), sep@),
{
    items.iter().join(sep)
}

/// `s` with each line break replaced by a space.
pub open spec fn newlines_to_spaces(s: Seq<char>) -> Seq<char> {
    s.map_values(|c: char| if c == '\n' { ' ' } else { c })
}

/// The lines `Lines::from_linefy` makes of `s`: its words joined by single
/// spaces, cut after every `{`, `}` and `;`, each piece without leading white space.
pub open spec fn linefy(s: Seq<char>) -> Seq<Seq<char>> {
    split_inclusive(seq_join(words(newlines_to_spaces(s)), seq![' ']), Separators::Statement)
        .map_values(|p: Seq<char>| trim_start(p))
}

/// Whether `s` ends with `c`.
pub open spec fn ends_with(s: Seq<char>, c: char) -> bool {
    s.len() > 0 && s.last() == c
}

/// The pieces of a closing line, each without leading white space, the
/// empty ones left out, each on a line of its own after `ind`.
pub open spec fn indented_pieces(pieces: Seq<Seq<char>>, ind: Seq<char>) -> Seq<char>
    decreases pieces.len(),
{
    if pieces.len() == 0 {
        Seq::empty()
    } else {
        let rest = indented_pieces(pieces.drop_last(), ind);
        let p = trim_start(pieces.last());
        if p.len() > 0 {
            rest + ind + p + seq!['\n']
        } else {
            rest
        }
    }
}

/// The text and the indentation after one more line has been written.
/// A line that ends with `}` is written without the `}`, cut after each
/// comma, one piece per line; the `}` then stands alone, unindented,
/// followed by a line holding one space. A line that ends with `{` opens
/// four more columns of indentation; a `}` closes four.
pub open spec fn file_step(acc: Seq<char>, indent: int, line: Seq<char>) -> (Seq<char>, int) {
    if ends_with(line, '}') {
        let inner = line.drop_last();
        let text = acc + indented_pieces(split_inclusive(inner, Separators::Comma), spaces((indent) as nat))
            + seq!['}', '\n', ' ', '\n'];
        let after = indent - 4;
        (text, if ends_with(inner, '{') { after + 4 } else { after })
    } else {
        (acc + spaces(indent as nat) + line + seq!['\n'], if ends_with(line, '{') { indent + 4 } else { indent })
    }
}

/// The text and indentation after writing `lines`, starting from nothing.
pub open spec fn file_state(lines: Seq<Seq<char>>) -> (Seq<char>, int)
    decreases lines.len(),
{
    if lines.len() == 0 {
        (Seq::empty(), 0)
    } else {
        let (acc, indent) = file_state(lines.drop_last());
        file_step(acc, indent, lines.last())
    }
}

/// Whether the indentation never drops below zero at a closing line and never
/// leaves `usize` (below zero the `usize` indentation would underflow).
pub open spec fn well_nested(lines: Seq<Seq<char>>) -> bool {
    forall|i: int| 0 <= i < lines.len() ==> {
        &&& (ends_with(#[trigger] lines[i], '}') ==> file_state(lines.take(i)).1 >= 4)
        &&& file_state(lines.take(i + 1)).1 <= usize::MAX
    }
}

/// All items of `parts`, one part after the other.
pub open spec fn concat_lines(parts: Seq<Seq<Seq<char>>>) -> Seq<Seq<char>>
    decreases parts.len(),
{
    if parts.len() == 0 {
        Seq::empty()
    } else {
        concat_lines(parts.drop_last()) + parts.last()
    }
}

/// A piece of WGSL source, one statement or block delimiter per line.
#[derive(Debug, Default, Clone, PartialEq)]
pub struct Lines {
    pub lines: Vec<String>,
}

impl View for Lines {
    type V = Seq<Seq<char>>;

    open spec fn view(&self) -> Seq<Seq<char>> {
        self.lines@.map_values(|s: String| s@)
    }
}

fn push_indented_pieces(result: &mut String, pieces: &Vec<Vec<char>>, indent: usize)
    ensures
        final(result)@ == old(result)@ + indented_pieces(pieces@.map_values(|p: Vec<char>| p@), spaces(indent as nat)),
{
    let ghost ps = pieces@.map_values(|p: Vec<char>| p@);
    let mut k: usize = 0;
    while k < pieces.len()
        invariant
            k <= pieces@.len(),
            ps == pieces@.map_values(|p: Vec<char>| p@),
            result@ == old(result)@ + indented_pieces(ps.take(k as int), spaces(indent as nat)),
        decreases pieces@.len() - k,
    {
        assert(ps.take(k + 1).drop_last() =~= ps.take(k as int));
        let piece = trim_start_chars(pieces[k].as_slice());
        if piece.len() > 0 {
            push_spaces(result, indent);
            let text = from_chars(piece.as_slice());
            push_str(result, text.as_str());
            push_char(result, '\n');
            assert(result@ =~= old(result)@ + indented_pieces(ps.take(k + 1), spaces(indent as nat)));
        } else {
            assert(result@ =~= old(result)@ + indented_pieces(ps.take(k + 1), spaces(indent as nat)));
        }
        k = k + 1;
    }
    assert(ps.take(pieces@.len() as int) =~= ps);
}

impl Lines {
    /// No lines.
    pub fn new() -> (r: Self)
        ensures
            r@ == Seq::<Seq<char>>::empty(),
    {
        let r = Self { lines: Vec::new() };
        assert(r@ =~= Seq::<Seq<char>>::empty());
        r
    }

    /// A single line.
    pub fn from_line(line: String) -> (r: Self)
        ensures
            r@ == seq![line@],
    {
        let r = Self::new().add(line);
        assert(r@ =~= seq![line@]);
        r
    }

    /// The given lines.
    pub fn from_strings(lines: Vec<String>) -> (r: Self)
        ensures
            r@ == lines@.map_values(|s: String| s@),
    {
        Self { lines }
    }

    /// The lines of all `parts`, one after the other.
    pub fn concat(parts: Vec<Lines>) -> (r: Self)
        ensures
            r@ == concat_lines(parts@.map_values(|l: Lines| l@)),
    {
        let ghost ps = parts@.map_values(|l: Lines| l@);
        let ghost orig = parts@;
        let mut parts = parts;
        let mut out = Self::new();
        let n = parts.len();
        let mut k: usize = 0;
        while k < n
            invariant
                k <= n,
                n == orig.len(),
                ps == orig.map_values(|l: Lines| l@),
                parts@ == orig.subrange(k as int, n as int),
                out@ == concat_lines(ps.take(k as int)),
            decreases n - k,
        {
            let part = parts.remove(0);
            assert(part == orig[k as int]);
            assert(ps.take(k + 1).drop_last() =~= ps.take(k as int));
            out = out.merge(part);
            k = k + 1;
            assert(parts@ =~= orig.subrange(k as int, n as int));
        }
        assert(ps.take(n as int) =~= ps);
        out
    }

    /// A copy of the lines.
    pub fn duplicate(&self) -> (r: Self)
        ensures
            r@ == self@,
    {
        let mut lines: Vec<String> = Vec::new();
        let mut k: usize = 0;
        while k < self.lines.len()
            invariant
                k <= self.lines@.len(),
                lines@.len() == k,
                forall|j: int| 0 <= j < k ==> (#[trigger] lines@[j])@ == self.lines@[j]@,
            decreases self.lines@.len() - k,
        {
            let c = self.lines[k].clone();
            lines.push(c);
            k = k + 1;
        }
        let r = Self { lines };
        assert(r@ =~= self@);
        r
    }

    /// The indented source file, leaving the lines in place.
    pub fn to_file_string(&self) -> (r: String)
        requires
            well_nested(self@),
        ensures
            r@ == file_state(self@).0,
    {
        self.duplicate().into_file_str()
    }

    /// `self` with `line` appended.
    pub fn add(self, line: String) -> (r: Self)
        ensures
            r@ == self@.push(line@),
    {
        let mut lines = self.lines;
        lines.push(line);
        let r = Self { lines };
        assert(r@ =~= self@.push(line@));
        r
    }

    /// `self` followed by the lines of `other`.
    pub fn merge(self, other: Lines) -> (r: Self)
        ensures
            r@ == self@ + other@,
    {
        let mut lines = self.lines;
        let mut more = other.lines;
        lines.append(&mut more);
        let r = Self { lines };
        assert(r@ =~= self@ + other@);
        r
    }

    /// `self`, then `{`, the lines of `other`, and `}`.
    pub fn block(self, other: Lines) -> (r: Self)
        ensures
            r@ == self@.push("{"@) + other@.push("}"@),
    {
        let r = self.add(String::from_str("{")).merge(other).add(String::from_str("}"));
        assert(r@ =~= self@.push("{"@) + other@.push("}"@));
        r
    }

    /// Turns WGSL source text into lines: white space runs collapse to one
    /// space, a line ends after each `{`, `}` and `;`, and leading white space
    /// of each line is dropped.
    pub fn from_linefy(string: String) -> (r: Self)
        ensures
            r@ == linefy(string@),
    {
        let chars = to_chars(string.as_str());
        let mut spaced: Vec<char> = Vec::new();
        let mut i: usize = 0;
        while i < chars.len()
            invariant
                i <= chars@.len(),
                chars@ == string@,
                spaced@ == newlines_to_spaces(chars@.take(i as int)),
            decreases chars@.len() - i,
        {
            let c = chars[i];
            if c == '\n' {
                spaced.push(' ');
            } else {
                spaced.push(c);
            }
            i = i + 1;
            assert(spaced@ =~= newlines_to_spaces(chars@.take(i as int)));
        }
        assert(chars@.take(chars@.len() as int) =~= chars@);
        let spaced = from_chars(spaced.as_slice());
        let words = split_whitespace_words(spaced.as_str());
        let joined = join_with(&words, " ");
        proof {
            reveal_strlit(" ");
            assert(" "@ =~= seq![' ']);
        }
        let joined_chars = to_chars(joined.as_str());
        let pieces = split_inclusive_chars(joined_chars.as_slice(), Separators::Statement);
        let ghost ps = pieces@.map_values(|p: Vec<char>| p@);
        let mut lines: Vec<String> = Vec::new();
        let mut k: usize = 0;
        while k < pieces.len()
            invariant
                k <= pieces@.len(),
                ps == pieces@.map_values(|p: Vec<char>| p@),
                lines@.len() == k,
                lines@.map_values(|s: String| s@) == ps.take(k as int).map_values(|p: Seq<char>| trim_start(p)),
            decreases pieces@.len() - k,
        {
            let trimmed = trim_start_chars(pieces[k].as_slice());
            assert(ps[k as int] == pieces@[k as int]@);
            let ghost before = lines@;
            let text = from_chars(trimmed.as_slice());
            lines.push(text);
            assert(lines@ == before.push(text));
            assert forall|j: int| 0 <= j < k + 1 implies lines@.map_values(|s: String| s@)[j]
                == ps.take(k + 1).map_values(|p: Seq<char>| trim_start(p))[j] && #[trigger] lines@[j] == lines@[j] by {
                if j < k {
                    assert(lines@[j] == before[j]);
                    assert(before.map_values(|s: String| s@)[j] == ps.take(k as int).map_values(|p: Seq<char>| trim_start(p))[j]);
                }
            }
            k = k + 1;
            assert(lines@.map_values(|s: String| s@) =~= ps.take(k as int).map_values(|p: Seq<char>| trim_start(p)));
        }
        assert(ps.take(pieces@.len() as int) =~= ps);
        let r = Self { lines };
        assert(r@ =~= linefy(string@));
        r
    }

    /// Writes the lines as an indented source file.
    #[verifier::spinoff_prover]
    #[verifier::rlimit(40)]
    pub fn into_file_str(self) -> (r: String)
        requires
            well_nested(self@),
        ensures
            r@ == file_state(self@).0,
    {
        let ghost ls = self@;
        let mut result = String::new();
        let mut indent: usize = 0;
        let mut k: usize = 0;
        assert(ls.take(0) =~= Seq::<Seq<char>>::empty());
        while k < self.lines.len()
            invariant
                k <= ls.len(),
                ls == self@,
                well_nested(ls),
                result@ == file_state(ls.take(k as int)).0,
                indent as int == file_state(ls.take(k as int)).1,
            decreases ls.len() - k,
        {
            assert(ls.take(k + 1).drop_last() =~= ls.take(k as int));
            assert(ls[k as int] == self.lines@[k as int]@);
            assert(ls.take(k + 1).last() == ls[k as int]);
            indent = write_line(&mut result, indent, &self.lines[k]);
            k = k + 1;
        }
        assert(ls.take(ls.len() as int) =~= ls);
        result
    }
}

/// Writes one line after text indented by `indent` columns and returns the
/// next indentation.
fn write_line(result: &mut String, indent: usize, line: &String) -> (next: usize)
    requires
        ends_with(line@, '}') ==> indent >= 4,
        file_step(old(result)@, indent as int, line@).1 <= usize::MAX,
    ensures
        (final(result)@, next as int) == file_step(old(result)@, indent as int, line@),
{
    let chars = to_chars(line.as_str());
    let n = chars.len();
    if n > 0 && chars[n - 1] == '}' {
        let inner = drop_last_char(&chars);
        let pieces = split_inclusive_chars(inner.as_slice(), Separators::Comma);
        push_indented_pieces(result, &pieces, indent);
        push_str(result, "}\n \n");
        proof {
            reveal_strlit("}\n \n");
        }
        let m = inner.len();
        let next = if m > 0 && inner[m - 1] == '{' { indent } else { indent - 4 };
        assert(final(result)@ =~= file_step(old(result)@, indent as int, line@).0);
        next
    } else {
        push_spaces(result, indent);
        push_str(result, line.as_str());
        push_char(result, '\n');
        assert(final(result)@ =~= file_step(old(result)@, indent as int, line@).0);
        if n > 0 && chars[n - 1] == '{' {
            indent + 4
        } else {
            indent
        }
    }
}

/// All characters of `s` but the last.
fn drop_last_char(s: &Vec<char>) -> (r: Vec<char>)
    requires
        s@.len() > 0,
    ensures
        r@ == s@.drop_last(),
{
    let n = s.len();
    let mut r: Vec<char> = Vec::new();
    let mut j: usize = 0;
    while j < n - 1
        invariant
            j <= n - 1,
            n == s@.len(),
            r@ == s@.take(j as int),
        decreases n - 1 - j,
    {
        r.push(s[j]);
        j = j + 1;
        assert(r@ =~= s@.take(j as int));
    }
    assert(r@ =~= s@.drop_last());
    r
}

/// Merging lines is associative and an empty piece changes nothing, so
/// a shader assembled from pieces does not depend on how they were grouped.
pub proof fn lemma_merge_laws(a: Seq<Seq<char>>, b: Seq<Seq<char>>, c: Seq<Seq<char>>)
    ensures
        (a + b) + c == a + (b + c),
        Seq::<Seq<char>>::empty() + a == a,
        a + Seq::<Seq<char>>::empty() == a,
{
    assert((a + b) + c =~= a + (b + c));
    assert(Seq::<Seq<char>>::empty() + a =~= a);
    assert(a + Seq::<Seq<char>>::empty() =~= a);
}

/// No character of `t` is white space.
pub open spec fn no_ws(t: Seq<char>) -> bool {
    forall|i: int| 0 <= i < t.len() ==> !is_ws(#[trigger] t[i])
}

/// The only white space in `t` is the plain space.
pub open spec fn spaces_only(t: Seq<char>) -> bool {
    forall|i: int| 0 <= i < t.len() ==> (is_ws(#[trigger] t[i]) ==> t[i] == ' ')
}

proof fn lemma_words_no_ws(s: Seq<char>)
    ensures
        forall|k: int| 0 <= k < words_state(s).0.len() ==> no_ws(#[trigger] words_state(s).0[k]),
        no_ws(words_state(s).1),
        forall|k: int| 0 <= k < words(s).len() ==> no_ws(#[trigger] words(s)[k]),
    decreases s.len(),
{
    if s.len() > 0 {
        lemma_words_no_ws(s.drop_last());
        let (done, cur) = words_state(s.drop_last());
        if !is_ws(s.last()) {
            assert forall|i: int| 0 <= i < cur.push(s.last()).len() implies !is_ws(#[trigger] cur.push(s.last())[i]) by {
                if i < cur.len() {
                    assert(cur.push(s.last())[i] == cur[i]);
                }
            }
        } else if cur.len() > 0 {
            assert forall|k: int| 0 <= k < done.push(cur).len() implies no_ws(#[trigger] done.push(cur)[k]) by {
                if k < done.len() {
                    assert(done.push(cur)[k] == done[k]);
                }
            }
        }
    }
    let (done, cur) = words_state(s);
    if cur.len() > 0 {
        assert forall|k: int| 0 <= k < done.push(cur).len() implies no_ws(#[trigger] done.push(cur)[k]) by {
            if k < done.len() {
                assert(done.push(cur)[k] == done[k]);
            }
        }
    }
}

proof fn lemma_join_spaces_only(list: Seq<Seq<char>>)
    requires
        forall|k: int| 0 <= k < list.len() ==> no_ws(#[trigger] list[k]),
    ensures
        spaces_only(seq_join(list, seq![' '])),
    decreases list.len(),
{
    if list.len() == 1 {
        assert(no_ws(list[0]));
    } else if list.len() > 1 {
        let prev = list.drop_last();
        assert forall|k: int| 0 <= k < prev.len() implies no_ws(#[trigger] prev[k]) by {
            assert(prev[k] == list[k]);
        }
        lemma_join_spaces_only(prev);
        let a = seq_join(prev, seq![' ']);
        let b = list.last();
        assert(no_ws(list[list.len() - 1]));
        let j = a + seq![' '] + b;
        assert forall|i: int| 0 <= i < j.len() implies (is_ws(#[trigger] j[i]) ==> j[i] == ' ') by {
            if i < a.len() {
                assert(j[i] == a[i]);
            } else if i == a.len() {
            } else {
                assert(j[i] == b[i - a.len() - 1]);
            }
        }
    }
}

proof fn lemma_split_spaces_only(s: Seq<char>, sep: Separators)
    requires
        spaces_only(s),
    ensures
        forall|k: int| 0 <= k < split_state(s, sep).0.len() ==> spaces_only(#[trigger] split_state(s, sep).0[k]),
        spaces_only(split_state(s, sep).1),
        forall|k: int| 0 <= k < split_inclusive(s, sep).len() ==> spaces_only(#[trigger] split_inclusive(s, sep)[k]),
    decreases s.len(),
{
    if s.len() > 0 {
        let prev = s.drop_last();
        assert forall|i: int| 0 <= i < prev.len() implies (is_ws(#[trigger] prev[i]) ==> prev[i] == ' ') by {
            assert(prev[i] == s[i]);
        }
        lemma_split_spaces_only(prev, sep);
        let (done, cur) = split_state(prev, sep);
        let cur2 = cur.push(s.last());
        assert(is_ws(s[s.len() - 1]) ==> s[s.len() - 1] == ' ');
        assert forall|i: int| 0 <= i < cur2.len() implies (is_ws(#[trigger] cur2[i]) ==> cur2[i] == ' ') by {
            if i < cur.len() {
                assert(cur2[i] == cur[i]);
            }
        }
        if is_separator(sep, s.last()) {
            assert forall|k: int| 0 <= k < done.push(cur2).len() implies spaces_only(#[trigger] done.push(cur2)[k]) by {
                if k < done.len() {
                    assert(done.push(cur2)[k] == done[k]);
                }
            }
        }
    }
    let (done, cur) = split_state(s, sep);
    if cur.len() > 0 {
        assert forall|k: int| 0 <= k < done.push(cur).len() implies spaces_only(#[trigger] done.push(cur)[k]) by {
            if k < done.len() {
                assert(done.push(cur)[k] == done[k]);
            }
        }
    }
}

proof fn lemma_trim_start_clean(p: Seq<char>)
    requires
        spaces_only(p),
    ensures
        spaces_only(trim_start(p)),
        trim_start(p).len() > 0 ==> !is_ws(trim_start(p)[0]),
    decreases p.len(),
{
    if p.len() > 0 && is_ws(p[0]) {
        let q = p.drop_first();
        assert forall|i: int| 0 <= i < q.len() implies (is_ws(#[trigger] q[i]) ==> q[i] == ' ') by {
            assert(q[i] == p[i + 1]);
        }
        lemma_trim_start_clean(q);
    }
}

/// Every line `Lines::from_linefy` makes starts with a character that is not
/// white space, and the only white space inside a line is the plain space:
/// tabs, line breaks and other spacing are gone.
pub proof fn lemma_linefy_lines_clean(s: Seq<char>)
    ensures
        forall|k: int| 0 <= k < linefy(s).len() ==> {
            &&& spaces_only(#[trigger] linefy(s)[k])
            &&& linefy(s)[k].len() > 0 ==> !is_ws(linefy(s)[k][0])
        },
{
    let ws = words(newlines_to_spaces(s));
    lemma_words_no_ws(newlines_to_spaces(s));
    lemma_join_spaces_only(ws);
    let joined = seq_join(ws, seq![' ']);
    lemma_split_spaces_only(joined, Separators::Statement);
    let pieces = split_inclusive(joined, Separators::Statement);
    assert forall|k: int| 0 <= k < linefy(s).len() implies {
        &&& spaces_only(#[trigger] linefy(s)[k])
        &&& linefy(s)[k].len() > 0 ==> !is_ws(linefy(s)[k][0])
    } by {
        assert(linefy(s)[k] == trim_start(pieces[k]));
        lemma_trim_start_clean(pieces[k]);
    }
}

/// The characters of `s` that are not white space, in order.
pub open spec fn visible(s: Seq<char>) -> Seq<char>
    decreases s.len(),
{
    if s.len() == 0 {
        Seq::empty()
    } else {
        visible(s.drop_last()) + if is_ws(s.last()) { Seq::<char>::empty() } else { seq![s.last()] }
    }
}

proof fn lemma_visible_add(a: Seq<char>, b: Seq<char>)
    ensures
        visible(a + b) == visible(a) + visible(b),
    decreases b.len(),
{
    if b.len() == 0 {
        assert(a + b =~= a);
        assert(visible(a) + visible(b) =~= visible(a));
    } else {
        lemma_visible_add(a, b.drop_last());
        assert((a + b).drop_last() =~= a + b.drop_last());
        assert((a + b).last() == b.last());
        assert(visible(a + b) =~= visible(a) + visible(b));
    }
}

proof fn lemma_visible_of_ws(s: Seq<char>)
    requires
        forall|i: int| 0 <= i < s.len() ==> is_ws(#[trigger] s[i]),
    ensures
        visible(s) == Seq::<char>::empty(),
    decreases s.len(),
{
    if s.len() > 0 {
        assert(is_ws(s[s.len() - 1]));
        lemma_visible_of_ws(s.drop_last());
    }
}

proof fn lemma_visible_trim(p: Seq<char>)
    ensures
        visible(trim_start(p)) == visible(p),
    decreases p.len(),
{
    if p.len() > 0 && is_ws(p[0]) {
        lemma_visible_trim(p.drop_first());
        lemma_visible_add(seq![p[0]], p.drop_first());
        assert(seq![p[0]] + p.drop_first() =~= p);
        lemma_visible_of_ws(seq![p[0]]);
    }
}

proof fn lemma_split_joined(s: Seq<char>, sep: Separators)
    ensures
        joined(split_state(s, sep).0) + split_state(s, sep).1 == s,
        joined(split_inclusive(s, sep)) == s,
    decreases s.len(),
{
    if s.len() > 0 {
        lemma_split_joined(s.drop_last(), sep);
        let (done, cur) = split_state(s.drop_last(), sep);
        let cur2 = cur.push(s.last());
        assert(s =~= s.drop_last().push(s.last()));
        assert((joined(done) + cur).push(s.last()) =~= joined(done) + cur2);
        assert(joined(done) + cur2 =~= s);
        if is_separator(sep, s.last()) {
            assert(done.push(cur2).drop_last() =~= done);
            assert(joined(done.push(cur2)) + Seq::<char>::empty() =~= s);
        }
    }
    let (done, cur) = split_state(s, sep);
    if cur.len() > 0 {
        assert(done.push(cur).drop_last() =~= done);
    } else {
        assert(joined(done) + cur =~= joined(done));
    }
}

proof fn lemma_indented_visible(pieces: Seq<Seq<char>>, ind: Seq<char>)
    requires
        forall|i: int| 0 <= i < ind.len() ==> is_ws(#[trigger] ind[i]),
    ensures
        visible(indented_pieces(pieces, ind)) == visible(joined(pieces)),
    decreases pieces.len(),
{
    if pieces.len() > 0 {
        let prev = pieces.drop_last();
        lemma_indented_visible(prev, ind);
        let rest = indented_pieces(prev, ind);
        let p = trim_start(pieces.last());
        lemma_visible_trim(pieces.last());
        lemma_visible_add(joined(prev), pieces.last());
        lemma_visible_of_ws(ind);
        lemma_visible_of_ws(seq!['\n']);
        if p.len() > 0 {
            lemma_visible_add(rest + ind + p, seq!['\n']);
            lemma_visible_add(rest + ind, p);
            lemma_visible_add(rest, ind);
            assert(visible(rest + ind + p + seq!['\n']) =~= visible(joined(pieces)));
        } else {
            assert(visible(p) =~= Seq::<char>::empty());
            assert(visible(joined(pieces)) =~= visible(joined(prev)));
        }
    }
}

/// Writing lines as a file keeps every character that is not white space,
/// in order, and adds none: a closing line's pieces are each written, none
/// dropped, and only indentation, line breaks and spacing change.
pub proof fn lemma_file_keeps_visible_text(lines: Seq<Seq<char>>)
    ensures
        visible(file_state(lines).0) == visible(joined(lines)),
    decreases lines.len(),
{
    if lines.len() > 0 {
        let prev = lines.drop_last();
        lemma_file_keeps_visible_text(prev);
        let (acc, indent) = file_state(prev);
        let line = lines.last();
        lemma_visible_add(joined(prev), line);
        let ind = spaces(indent as nat);
        assert forall|i: int| 0 <= i < ind.len() implies is_ws(#[trigger] ind[i]) by {}
        lemma_visible_of_ws(ind);
        if ends_with(line, '}') {
            let inner = line.drop_last();
            let pieces = split_inclusive(inner, Separators::Comma);
            lemma_split_joined(inner, Separators::Comma);
            lemma_indented_visible(pieces, ind);
            let tail = seq!['}', '\n', ' ', '\n'];
            assert(visible(tail) =~= seq!['}']) by {
                let t1 = seq!['}'];
                let t2 = seq!['}', '\n'];
                let t3 = seq!['}', '\n', ' '];
                assert(t1.drop_last() =~= Seq::<char>::empty());
                assert(!is_ws('}'));
                assert(visible(t1.drop_last()) == Seq::<char>::empty());
                assert(t1.last() == '}');
                assert(visible(t1) == visible(t1.drop_last()) + seq![t1.last()]);
                assert(visible(t1) =~= seq!['}']);
                assert(t2.drop_last() =~= t1);
                assert(is_ws('\n'));
                assert(visible(t2) =~= seq!['}']);
                assert(t3.drop_last() =~= t2);
                assert(is_ws(' '));
                assert(visible(t3) =~= seq!['}']);
                assert(tail.drop_last() =~= t3);
            }
            lemma_visible_add(acc + indented_pieces(pieces, ind), tail);
            lemma_visible_add(acc, indented_pieces(pieces, ind));
            assert(line =~= inner + seq!['}']);
            lemma_visible_add(inner, seq!['}']);
            assert(seq!['}'].drop_last() =~= Seq::<char>::empty());
            assert(visible(seq!['}']) =~= seq!['}']);
            assert(visible(file_state(lines).0) =~= visible(joined(lines)));
        } else {
            lemma_visible_of_ws(seq!['\n']);
            lemma_visible_add(acc + ind + line, seq!['\n']);
            lemma_visible_add(acc + ind, line);
            lemma_visible_add(acc, ind);
            assert(visible(file_state(lines).0) =~= visible(joined(lines)));
        }
    }
}

} // verus!
