//! The renderer: each layout element's exact text, stated as spec
//! functions and produced by the [`Generator`] trait.

use vstd::prelude::*;

use crate::model::{BoundsError, IOElement, LineElement, Scalar};
use crate::model::{io_element_wf, io_format_wf, line_element_wf};
use crate::text::{
    bool_text, bool_to_string, char_to_string, i64_to_string, int_text, join_with,
    lemma_join_with_push, nat_text, u64_to_string,
};

verus! {

/// The text of one scalar: decimal for the integers, the carried text for
/// floats and strings, the one character for a char, `true`/`false` for a
/// boolean.
pub open spec fn scalar_text(s: Scalar) -> Seq<char> {
    match s {
        Scalar::UInt(u) => nat_text(u as nat),
        Scalar::Int(i) => int_text(i as int),
        Scalar::Float(t) => t@,
        Scalar::String(t) => t@,
        Scalar::Char(c) => seq![c],
        Scalar::Bool(b) => bool_text(b),
    }
}

/// The texts of a sequence of scalars, in order.
pub open spec fn scalar_texts(v: Seq<Scalar>) -> Seq<Seq<char>> {
    v.map_values(|s: Scalar| scalar_text(s))
}

/// The text of one line element: its scalars' texts, space-joined; a
/// bounded vector contributes only its first `n`.
pub open spec fn line_element_text(e: LineElement) -> Seq<char> {
    match e {
        LineElement::Scalar(s) => scalar_text(s),
        LineElement::BoundedVec(v, n) => join_with(scalar_texts(v@.take(n as int)), seq![' ']),
        LineElement::UnboundedVec(v) => join_with(scalar_texts(v@), seq![' ']),
    }
}

/// Row `i` of a parallel-lines block: entry `i` of each column in column
/// order, space-joined.
pub open spec fn zip_row_text(cols: Seq<Vec<Scalar>>, i: int) -> Seq<char> {
    join_with(Seq::new(cols.len(), |c: int| scalar_text(cols[c]@[i])), seq![' '])
}

/// The first `k` rows of a parallel-lines block, newline-joined.
pub open spec fn zip_rows_text(cols: Seq<Vec<Scalar>>, k: nat) -> Seq<char> {
    join_with(Seq::new(k, |i: int| zip_row_text(cols, i)), seq!['\n'])
}

/// The text of one file element.
pub open spec fn io_element_text(e: IOElement) -> Seq<char> {
    match e {
        IOElement::Line(line) => join_with(
            line@.map_values(|le: LineElement| line_element_text(le)),
            seq![' '],
        ),
        IOElement::RawLine(s) => s@,
        IOElement::EmptyLine => Seq::empty(),
        IOElement::LinesBounded(cols, k) => zip_rows_text(cols@, k as nat),
        IOElement::LinesUnbounded(cols) => zip_rows_text(cols@, cols@[0]@.len()),
        IOElement::RawLinesBounded(lines, k) => join_with(
            lines@.take(k as int).map_values(|s: String| s@),
            seq!['\n'],
        ),
        IOElement::RawLinesUnbounded(lines) => join_with(
            lines@.map_values(|s: String| s@),
            seq!['\n'],
        ),
        IOElement::Grid(rows, r, c) => join_with(
            Seq::new(
                r as nat,
                |i: int| join_with(scalar_texts(rows[i]@.take(c as int)), seq![' ']),
            ),
            seq!['\n'],
        ),
    }
}

/// The whole file: every element's text, newline-joined, with no trailing
/// newline and none before the first element.
pub open spec fn format_text(f: Seq<IOElement>) -> Seq<char> {
    join_with(f.map_values(|e: IOElement| io_element_text(e)), seq!['\n'])
}

/// Renders a layout value to its text. Rendering succeeds exactly on
/// well-formed values and then returns exactly the value's text; on any
/// other value it reports the bounds fault instead of reading out of
/// range.
pub trait Generator {
    spec fn gen_wf(&self) -> bool;

    spec fn gen_text(&self) -> Seq<char>;

    fn generate(&self) -> (r: Result<String, BoundsError>)
        ensures
            r is Ok <==> self.gen_wf(),
            r matches Ok(s) ==> s@ == self.gen_text(),
            r is Err ==> r == Err::<String, BoundsError>(BoundsError),
    ;
}

impl Scalar {
    /// The text of this scalar. Scalar rendering is total: it never fails.
    pub fn to_text(&self) -> (r: String)
        ensures
            r@ == scalar_text(*self),
    {
        match self {
            Scalar::UInt(u) => u64_to_string(*u),
            Scalar::Int(i) => i64_to_string(*i),
            Scalar::Float(t) => t.clone(),
            Scalar::String(t) => t.clone(),
            Scalar::Char(c) => char_to_string(*c),
            Scalar::Bool(b) => bool_to_string(*b),
        }
    }
}

impl Generator for Scalar {
    open spec fn gen_wf(&self) -> bool {
        true
    }

    open spec fn gen_text(&self) -> Seq<char> {
        scalar_text(*self)
    }

    fn generate(&self) -> (r: Result<String, BoundsError>) {
        Ok(self.to_text())
    }
}

/// The first `n` scalars of `v`, rendered and space-joined.
fn join_scalars(v: &Vec<Scalar>, n: usize) -> (r: String)
    requires
        n <= v@.len(),
    ensures
        r@ == join_with(scalar_texts(v@.take(n as int)), seq![' ']),
{
    let mut out = String::new();
    let mut idx: usize = 0;
    while idx < n
        invariant
            n <= v@.len(),
            idx <= n,
            out@ == join_with(scalar_texts(v@.take(idx as int)), seq![' ']),
        decreases n - idx,
    {
        if idx > 0 {
            out.append(" ");
        }
        let frag = v[idx].to_text();
        out.append(frag.as_str());
        proof {
            reveal_strlit(" ");
            assert(" "@ =~= seq![' ']);
            let prefix = scalar_texts(v@.take(idx as int));
            assert(scalar_texts(v@.take(idx + 1 as int)) =~= prefix.push(scalar_text(
                v@[idx as int],
            )));
            lemma_join_with_push(prefix, seq![' '], scalar_text(v@[idx as int]));
            assert(out@ =~= join_with(scalar_texts(v@.take(idx + 1 as int)), seq![' ']));
        }
        idx = idx + 1;
    }
    proof {
        assert(v@.take(idx as int) =~= v@.take(n as int));
    }
    out
}

impl Generator for LineElement {
    open spec fn gen_wf(&self) -> bool {
        line_element_wf(*self)
    }

    open spec fn gen_text(&self) -> Seq<char> {
        line_element_text(*self)
    }

    fn generate(&self) -> (r: Result<String, BoundsError>) {
        match self {
            LineElement::Scalar(s) => Ok(s.to_text()),
            LineElement::BoundedVec(v, n) => {
                if *n > v.len() {
                    Err(BoundsError)
                } else {
                    Ok(join_scalars(v, *n))
                }
            },
            LineElement::UnboundedVec(v) => {
                let len = v.len();
                let joined = join_scalars(v, len);
                proof {
                    assert(v@.take(len as int) =~= v@);
                }
                Ok(joined)
            },
        }
    }
}

/// The first `k` raw lines, newline-joined.
fn join_strings(lines: &Vec<String>, k: usize) -> (r: String)
    requires
        k <= lines@.len(),
    ensures
        r@ == join_with(lines@.take(k as int).map_values(|s: String| s@), seq!['\n']),
{
    let mut out = String::new();
    let mut idx: usize = 0;
    while idx < k
        invariant
            k <= lines@.len(),
            idx <= k,
            out@ == join_with(lines@.take(idx as int).map_values(|s: String| s@), seq!['\n']),
        decreases k - idx,
    {
        if idx > 0 {
            out.append("\n");
        }
        out.append(lines[idx].as_str());
        proof {
            reveal_strlit("\n");
            assert("\n"@ =~= seq!['\n']);
            let prefix = lines@.take(idx as int).map_values(|s: String| s@);
            assert(lines@.take(idx + 1 as int).map_values(|s: String| s@) =~= prefix.push(
                lines@[idx as int]@,
            ));
            lemma_join_with_push(prefix, seq!['\n'], lines@[idx as int]@);
            assert(out@ =~= join_with(
                lines@.take(idx + 1 as int).map_values(|s: String| s@),
                seq!['\n'],
            ));
        }
        idx = idx + 1;
    }
    proof {
        assert(lines@.take(idx as int) =~= lines@.take(k as int));
    }
    out
}

/// Row `i` of a parallel-lines block: entry `i` of each column, in column
/// order, space-joined.
fn zip_row(cols: &Vec<Vec<Scalar>>, i: usize) -> (r: String)
    requires
        forall|c: int| 0 <= c < cols@.len() ==> i < (#[trigger] cols@[c])@.len(),
    ensures
        r@ == zip_row_text(cols@, i as int),
{
    let mut out = String::new();
    let mut c: usize = 0;
    while c < cols.len()
        invariant
            forall|cc: int| 0 <= cc < cols@.len() ==> i < (#[trigger] cols@[cc])@.len(),
            c <= cols@.len(),
            out@ == join_with(
                Seq::new(c as nat, |cc: int| scalar_text(cols@[cc]@[i as int])),
                seq![' '],
            ),
        decreases cols@.len() - c,
    {
        if c > 0 {
            out.append(" ");
        }
        let frag = cols[c][i].to_text();
        out.append(frag.as_str());
        proof {
            reveal_strlit(" ");
            assert(" "@ =~= seq![' ']);
            let prefix = Seq::new(c as nat, |cc: int| scalar_text(cols@[cc]@[i as int]));
            assert(Seq::new((c + 1) as nat, |cc: int| scalar_text(cols@[cc]@[i as int]))
                =~= prefix.push(scalar_text(cols@[c as int]@[i as int])));
            lemma_join_with_push(prefix, seq![' '], scalar_text(cols@[c as int]@[i as int]));
            assert(out@ =~= join_with(
                Seq::new((c + 1) as nat, |cc: int| scalar_text(cols@[cc]@[i as int])),
                seq![' '],
            ));
        }
        c = c + 1;
    }
    out
}

/// The first `k` rows of a parallel-lines block, newline-joined.
fn render_zip_rows(cols: &Vec<Vec<Scalar>>, k: usize) -> (r: String)
    requires
        forall|c: int| 0 <= c < cols@.len() ==> k <= (#[trigger] cols@[c])@.len(),
    ensures
        r@ == zip_rows_text(cols@, k as nat),
{
    let mut out = String::new();
    let mut i: usize = 0;
    while i < k
        invariant
            forall|c: int| 0 <= c < cols@.len() ==> k <= (#[trigger] cols@[c])@.len(),
            i <= k,
            out@ == zip_rows_text(cols@, i as nat),
        decreases k - i,
    {
        if i > 0 {
            out.append("\n");
        }
        let row = zip_row(cols, i);
        out.append(row.as_str());
        proof {
            reveal_strlit("\n");
            assert("\n"@ =~= seq!['\n']);
            let prefix = Seq::new(i as nat, |ii: int| zip_row_text(cols@, ii));
            assert(Seq::new((i + 1) as nat, |ii: int| zip_row_text(cols@, ii)) =~= prefix.push(
                zip_row_text(cols@, i as int),
            ));
            lemma_join_with_push(prefix, seq!['\n'], zip_row_text(cols@, i as int));
            assert(out@ =~= zip_rows_text(cols@, (i + 1) as nat));
        }
        i = i + 1;
    }
    out
}

/// One line of line elements: each element's text, space-joined; the
/// first ill-formed element fails the whole line.
fn render_line(line: &Vec<LineElement>) -> (r: Result<String, BoundsError>)
    ensures
        r is Ok <==> (forall|j: int| 0 <= j < line@.len() ==> line_element_wf(
            #[trigger] line@[j],
        )),
        r matches Ok(s) ==> s@ == join_with(
            line@.map_values(|le: LineElement| line_element_text(le)),
            seq![' '],
        ),
        r is Err ==> r == Err::<String, BoundsError>(BoundsError),
{
    let mut out = String::new();
    let mut idx: usize = 0;
    while idx < line.len()
        invariant
            idx <= line@.len(),
            forall|j: int| 0 <= j < idx ==> line_element_wf(#[trigger] line@[j]),
            out@ == join_with(
                line@.take(idx as int).map_values(|le: LineElement| line_element_text(le)),
                seq![' '],
            ),
        decreases line@.len() - idx,
    {
        if idx > 0 {
            out.append(" ");
        }
        match line[idx].generate() {
            Ok(frag) => {
                out.append(frag.as_str());
            },
            Err(e) => {
                return Err(e);
            },
        }
        proof {
            reveal_strlit(" ");
            assert(" "@ =~= seq![' ']);
            let prefix = line@.take(idx as int).map_values(
                |le: LineElement| line_element_text(le),
            );
            assert(line@.take(idx + 1 as int).map_values(
                |le: LineElement| line_element_text(le),
            ) =~= prefix.push(line_element_text(line@[idx as int])));
            lemma_join_with_push(prefix, seq![' '], line_element_text(line@[idx as int]));
            assert(out@ =~= join_with(
                line@.take(idx + 1 as int).map_values(|le: LineElement| line_element_text(le)),
                seq![' '],
            ));
        }
        idx = idx + 1;
    }
    proof {
        assert(line@.take(idx as int) =~= line@);
    }
    Ok(out)
}

/// The first `r_bound` rows of a grid, each row its first `c_bound`
/// scalars space-joined, rows newline-joined.
fn render_grid(rows: &Vec<Vec<Scalar>>, r_bound: usize, c_bound: usize) -> (r: String)
    requires
        r_bound <= rows@.len(),
        forall|i: int| 0 <= i < r_bound ==> c_bound <= (#[trigger] rows@[i])@.len(),
    ensures
        r@ == join_with(
            Seq::new(
                r_bound as nat,
                |i: int| join_with(scalar_texts(rows@[i]@.take(c_bound as int)), seq![' ']),
            ),
            seq!['\n'],
        ),
{
    let mut out = String::new();
    let mut i: usize = 0;
    while i < r_bound
        invariant
            r_bound <= rows@.len(),
            forall|j: int| 0 <= j < r_bound ==> c_bound <= (#[trigger] rows@[j])@.len(),
            i <= r_bound,
            out@ == join_with(
                Seq::new(
                    i as nat,
                    |j: int| join_with(scalar_texts(rows@[j]@.take(c_bound as int)), seq![' ']),
                ),
                seq!['\n'],
            ),
        decreases r_bound - i,
    {
        if i > 0 {
            out.append("\n");
        }
        let row = join_scalars(&rows[i], c_bound);
        out.append(row.as_str());
        proof {
            reveal_strlit("\n");
            assert("\n"@ =~= seq!['\n']);
            let row_of = |j: int| join_with(
                scalar_texts(rows@[j]@.take(c_bound as int)),
                seq![' '],
            );
            let prefix = Seq::new(i as nat, row_of);
            assert(Seq::new((i + 1) as nat, row_of) =~= prefix.push(row_of(i as int)));
            lemma_join_with_push(prefix, seq!['\n'], row_of(i as int));
            assert(out@ =~= join_with(Seq::new((i + 1) as nat, row_of), seq!['\n']));
        }
        i = i + 1;
    }
    out
}

/// Whether every column of a parallel-lines block holds at least `k`
/// scalars.
fn cols_support(cols: &Vec<Vec<Scalar>>, k: usize) -> (b: bool)
    ensures
        b <==> (forall|c: int| 0 <= c < cols@.len() ==> k <= (#[trigger] cols@[c])@.len()),
{
    let mut c: usize = 0;
    while c < cols.len()
        invariant
            c <= cols@.len(),
            forall|cc: int| 0 <= cc < c ==> k <= (#[trigger] cols@[cc])@.len(),
        decreases cols@.len() - c,
    {
        if k > cols[c].len() {
            return false;
        }
        c = c + 1;
    }
    true
}

/// Whether the block has at least one column and all columns share the
/// first column's length.
fn cols_equal_len(cols: &Vec<Vec<Scalar>>) -> (b: bool)
    ensures
        b <==> (cols@.len() > 0 && forall|c: int|
            0 <= c < cols@.len() ==> (#[trigger] cols@[c])@.len() == cols@[0]@.len()),
{
    if cols.len() == 0 {
        return false;
    }
    let k = cols[0].len();
    let mut c: usize = 0;
    while c < cols.len()
        invariant
            cols@.len() > 0,
            k == cols@[0]@.len(),
            c <= cols@.len(),
            forall|cc: int| 0 <= cc < c ==> (#[trigger] cols@[cc])@.len() == k,
        decreases cols@.len() - c,
    {
        if cols[c].len() != k {
            return false;
        }
        c = c + 1;
    }
    true
}

/// Whether a grid holds at least `r_bound` rows of at least `c_bound`
/// scalars each.
fn grid_supports(rows: &Vec<Vec<Scalar>>, r_bound: usize, c_bound: usize) -> (b: bool)
    ensures
        b <==> (r_bound <= rows@.len() && forall|i: int|
            0 <= i < r_bound ==> c_bound <= (#[trigger] rows@[i])@.len()),
{
    if r_bound > rows.len() {
        return false;
    }
    let mut i: usize = 0;
    while i < r_bound
        invariant
            r_bound <= rows@.len(),
            i <= r_bound,
            forall|j: int| 0 <= j < i ==> c_bound <= (#[trigger] rows@[j])@.len(),
        decreases r_bound - i,
    {
        if c_bound > rows[i].len() {
            return false;
        }
        i = i + 1;
    }
    true
}

impl Generator for IOElement {
    open spec fn gen_wf(&self) -> bool {
        io_element_wf(*self)
    }

    open spec fn gen_text(&self) -> Seq<char> {
        io_element_text(*self)
    }

    fn generate(&self) -> (r: Result<String, BoundsError>) {
        match self {
            IOElement::Line(line) => render_line(line),
            IOElement::RawLine(s) => Ok(s.clone()),
            IOElement::EmptyLine => Ok(String::new()),
            IOElement::LinesBounded(cols, k) => {
                let k = *k;
                if !cols_support(cols, k) {
                    Err(BoundsError)
                } else {
                    Ok(render_zip_rows(cols, k))
                }
            },
            IOElement::LinesUnbounded(cols) => {
                if !cols_equal_len(cols) {
                    Err(BoundsError)
                } else {
                    Ok(render_zip_rows(cols, cols[0].len()))
                }
            },
            IOElement::RawLinesBounded(lines, k) => {
                if *k > lines.len() {
                    Err(BoundsError)
                } else {
                    Ok(join_strings(lines, *k))
                }
            },
            IOElement::RawLinesUnbounded(lines) => {
                let len = lines.len();
                let joined = join_strings(lines, len);
                proof {
                    assert(lines@.take(len as int) =~= lines@);
                }
                Ok(joined)
            },
            IOElement::Grid(rows, r_bound, c_bound) => {
                let r_bound = *r_bound;
                let c_bound = *c_bound;
                if !grid_supports(rows, r_bound, c_bound) {
                    Err(BoundsError)
                } else {
                    Ok(render_grid(rows, r_bound, c_bound))
                }
            },
        }
    }
}

impl Generator for Vec<IOElement> {
    open spec fn gen_wf(&self) -> bool {
        io_format_wf(self@)
    }

    open spec fn gen_text(&self) -> Seq<char> {
        format_text(self@)
    }

    fn generate(&self) -> (r: Result<String, BoundsError>) {
        let mut out = String::new();
        let mut idx: usize = 0;
        while idx < self.len()
            invariant
                idx <= self@.len(),
                forall|j: int| 0 <= j < idx ==> io_element_wf(#[trigger] self@[j]),
                out@ == join_with(
                    self@.take(idx as int).map_values(|e: IOElement| io_element_text(e)),
                    seq!['\n'],
                ),
            decreases self@.len() - idx,
        {
            if idx > 0 {
                out.append("\n");
            }
            match self[idx].generate() {
                Ok(frag) => {
                    out.append(frag.as_str());
                },
                Err(e) => {
                    return Err(e);
                },
            }
            proof {
                reveal_strlit("\n");
                assert("\n"@ =~= seq!['\n']);
                let prefix = self@.take(idx as int).map_values(
                    |e: IOElement| io_element_text(e),
                );
                assert(self@.take(idx + 1 as int).map_values(|e: IOElement| io_element_text(e))
                    =~= prefix.push(io_element_text(self@[idx as int])));
                lemma_join_with_push(prefix, seq!['\n'], io_element_text(self@[idx as int]));
                assert(out@ =~= join_with(
                    self@.take(idx + 1 as int).map_values(|e: IOElement| io_element_text(e)),
                    seq!['\n'],
                ));
            }
            idx = idx + 1;
        }
        proof {
            assert(self@.take(idx as int) =~= self@);
        }
        Ok(out)
    }
}

} // verus!
