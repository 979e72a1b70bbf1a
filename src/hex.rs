use vstd::prelude::*;

verus! {

/// Bytes per line of a dump.
pub const COLUMNS: usize = 8;

/// The lower-case hex digits.
pub open spec fn digits() -> Seq<char> {
    seq!['0', '1', '2', '3', '4', '5', '6', '7', '8', '9', 'a', 'b', 'c', 'd', 'e', 'f']
}

/// `b` as two hex digits.
pub open spec fn byte_text(b: u8) -> Seq<char> {
    seq![digits()[b as int / 16], digits()[b as int % 16]]
}

/// The bytes of `row` as two hex digits each, separated by single spaces.
pub open spec fn row_text(row: Seq<u8>) -> Seq<char>
    decreases row.len(),
{
    if row.len() == 0 {
        seq![]
    } else if row.len() == 1 {
        byte_text(row[0])
    } else {
        row_text(row.drop_last()) + seq![' '] + byte_text(row.last())
    }
}

/// `n` in hex, without leading zeros.
pub open spec fn hex_text(n: nat) -> Seq<char>
    decreases n,
{
    if n < 16 {
        seq![digits()[n as int]]
    } else {
        hex_text(n / 16) + seq![digits()[(n % 16) as int]]
    }
}

/// `n` in hex, padded with zeros to at least four digits.
pub open spec fn address_text(n: nat) -> Seq<char> {
    let zeros = if n < 0x10 {
        seq!['0', '0', '0']
    } else if n < 0x100 {
        seq!['0', '0']
    } else if n < 0x1000 {
        seq!['0']
    } else {
        seq![]
    };
    zeros + hex_text(n)
}

/// The rows of a dump: `bytes` cut into pieces of `COLUMNS`, the last one
/// possibly shorter.
pub open spec fn rows_of(bytes: Seq<u8>) -> Seq<Seq<u8>>
    decreases bytes.len(),
{
    if bytes.len() == 0 {
        seq![]
    } else if bytes.len() <= 8 {
        seq![bytes]
    } else {
        seq![bytes.take(8)] + rows_of(bytes.skip(8))
    }
}

/// Where the run of lines equal to `lines[p]` that reaches `q` ends.
pub open spec fn run_end(lines: Seq<Seq<char>>, p: int, q: int) -> int
    decreases lines.len() - q,
{
    if 0 <= q < lines.len() && lines[q] == lines[p] {
        run_end(lines, p, q + 1)
    } else {
        q
    }
}

/// The run-length encoding of `lines` from index `p` on: each maximal run
/// of equal consecutive lines becomes its length and the line.
pub open spec fn runs_from(lines: Seq<Seq<char>>, p: int) -> Seq<(nat, Seq<char>)>
    decreases lines.len() - p,
{
    if p < 0 || p >= lines.len() {
        seq![]
    } else {
        let e = run_end(lines, p, p + 1);
        if e <= p || e > lines.len() {
            seq![]
        } else {
            seq![((e - p) as nat, lines[p])] + runs_from(lines, e)
        }
    }
}

proof fn lemma_run_end_bounds(lines: Seq<Seq<char>>, p: int, q: int)
    requires
        0 <= p < q <= lines.len(),
    ensures
        q <= run_end(lines, p, q) <= lines.len(),
    decreases lines.len() - q,
{
    if q < lines.len() && lines[q] == lines[p] {
        lemma_run_end_bounds(lines, p, q + 1);
    }
}

fn hex_digit(d: u8) -> (r: char)
    requires
        d < 16,
    ensures
        r == digits()[d as int],
{
    match d {
        0 => '0',
        1 => '1',
        2 => '2',
        3 => '3',
        4 => '4',
        5 => '5',
        6 => '6',
        7 => '7',
        8 => '8',
        9 => '9',
        10 => 'a',
        11 => 'b',
        12 => 'c',
        13 => 'd',
        14 => 'e',
        _ => 'f',
    }
}

fn push_hex(out: &mut Vec<char>, n: u128)
    ensures
        final(out)@ == old(out)@ + hex_text(n as nat),
    decreases n,
{
    if n >= 16 {
        push_hex(out, n / 16);
    }
    out.push(hex_digit((n % 16) as u8));
    assert(final(out)@ =~= old(out)@ + hex_text(n as nat));
}

/// `n` in hex, padded with zeros to at least four digits.
pub fn address(n: u128) -> (r: Vec<char>)
    ensures
        r@ == address_text(n as nat),
{
    let mut out: Vec<char> = Vec::new();
    if n < 0x10 {
        out.push('0');
    }
    if n < 0x100 {
        out.push('0');
    }
    if n < 0x1000 {
        out.push('0');
    }
    push_hex(&mut out, n);
    assert(out@ =~= address_text(n as nat));
    out
}

/// The bytes of `row` as two hex digits each, separated by single spaces.
pub fn concat(row: &Vec<u8>) -> (line: Vec<char>)
    ensures
        line@ == row_text(row@),
{
    let mut line: Vec<char> = Vec::new();
    let mut i: usize = 0;
    while i < row.len()
        invariant
            i <= row@.len(),
            line@ == row_text(row@.take(i as int)),
        decreases row.len() - i,
    {
        let byte = row[i];
        if i > 0 {
            line.push(' ');
        }
        line.push(hex_digit(byte / 16));
        line.push(hex_digit(byte % 16));
        assert(row@.take(i + 1).drop_last() =~= row@.take(i as int));
        i = i + 1;
        assert(line@ =~= row_text(row@.take(i as int)));
    }
    assert(row@.take(i as int) =~= row@);
    line
}

/// `bytes` cut into rows of `COLUMNS` bytes; the last row may be shorter.
pub fn get_rows(bytes: &Vec<u8>) -> (rows: Vec<Vec<u8>>)
    ensures
        rows@.len() == rows_of(bytes@).len(),
        forall|k: int| 0 <= k < rows@.len() ==> #[trigger] rows@[k]@ == rows_of(bytes@)[k],
{
    let mut rows: Vec<Vec<u8>> = Vec::new();
    let ghost mut views: Seq<Seq<u8>> = seq![];
    let mut i: usize = 0;
    assert(bytes@.skip(0) =~= bytes@);
    while i < bytes.len()
        invariant
            i <= bytes@.len(),
            rows@.len() == views.len(),
            forall|k: int| 0 <= k < rows@.len() ==> #[trigger] rows@[k]@ == views[k],
            views + rows_of(bytes@.skip(i as int)) == rows_of(bytes@),
        decreases bytes.len() - i,
    {
        let j = if bytes.len() - i > COLUMNS {
            i + COLUMNS
        } else {
            bytes.len()
        };
        let mut row: Vec<u8> = Vec::new();
        let mut k: usize = i;
        while k < j
            invariant
                i <= k <= j <= bytes@.len(),
                row@ == bytes@.subrange(i as int, k as int),
            decreases j - k,
        {
            row.push(bytes[k]);
            k = k + 1;
            assert(row@ =~= bytes@.subrange(i as int, k as int));
        }
        let ghost rest = bytes@.skip(i as int);
        if j < bytes.len() {
            assert(rest.take(8) =~= row@);
            assert(rest.skip(8) =~= bytes@.skip(j as int));
        } else {
            assert(rest =~= row@);
            assert(bytes@.skip(j as int) =~= seq![]);
        }
        assert(rows_of(rest) =~= seq![row@] + rows_of(bytes@.skip(j as int)));
        proof {
            views = views.push(row@);
        }
        rows.push(row);
        i = j;
        assert(views + rows_of(bytes@.skip(i as int)) =~= rows_of(bytes@));
    }
    assert(bytes@.skip(i as int) =~= seq![]);
    assert(views =~= rows_of(bytes@));
    rows
}

/// The texts of a list of lines.
pub open spec fn texts(lines: Seq<Vec<char>>) -> Seq<Seq<char>> {
    lines.map_values(|l: Vec<char>| l@)
}

/// The view of a run-length encoding.
pub open spec fn runs_view(runs: Seq<(usize, Vec<char>)>) -> Seq<(nat, Seq<char>)> {
    runs.map_values(|r: (usize, Vec<char>)| (r.0 as nat, r.1@))
}

/// The number of lines that `runs` stands for.
pub open spec fn covered(runs: Seq<(nat, Seq<char>)>) -> nat
    decreases runs.len(),
{
    if runs.len() == 0 {
        0
    } else {
        runs[0].0 + covered(runs.drop_first())
    }
}

/// `line` labelled with the address `addr`.
pub open spec fn labelled_text(addr: nat, line: Seq<char>) -> Seq<char> {
    address_text(addr) + seq![':', ' '] + line
}

/// The dump of `runs` from index `k` on, the first line at address `addr`:
/// a run of one line is printed once; a longer run prints its first line,
/// then `...` if lines are left out between, then its last line, each with
/// its address.
pub open spec fn dump_from(runs: Seq<(nat, Seq<char>)>, k: int, addr: nat) -> Seq<Seq<char>>
    decreases runs.len() - k,
{
    if k < 0 || k >= runs.len() {
        seq![]
    } else {
        let count = runs[k].0;
        let line = runs[k].1;
        let last = if count >= 1 {
            addr + 8 * (count - 1)
        } else {
            addr as int
        };
        let head = if count > 1 {
            seq![labelled_text(addr, line)] + if count > 2 {
                seq![seq!['.', '.', '.']]
            } else {
                seq![]
            }
        } else {
            seq![]
        };
        head + seq![labelled_text(last as nat, line)] + dump_from(runs, k + 1, addr + 8 * count)
    }
}

/// The lines that dump `bytes`, `COLUMNS` bytes per line, with runs of
/// equal lines shortened.
pub open spec fn dump_spec(bytes: Seq<u8>) -> Seq<Seq<char>> {
    dump_from(runs_from(rows_of(bytes).map_values(|r: Seq<u8>| row_text(r)), 0), 0, 0)
}

/// One text line for each row.
pub fn get_lines(rows: Vec<Vec<u8>>) -> (lines: Vec<Vec<char>>)
    ensures
        lines@.len() == rows@.len(),
        forall|k: int| 0 <= k < lines@.len() ==> #[trigger] lines@[k]@ == row_text(rows@[k]@),
{
    let mut lines: Vec<Vec<char>> = Vec::new();
    let mut k: usize = 0;
    while k < rows.len()
        invariant
            k <= rows@.len(),
            lines@.len() == k,
            forall|j: int| 0 <= j < k ==> #[trigger] lines@[j]@ == row_text(rows@[j]@),
        decreases rows.len() - k,
    {
        lines.push(concat(&rows[k]));
        k = k + 1;
    }
    lines
}

fn same_line(a: &Vec<char>, b: &Vec<char>) -> (r: bool)
    ensures
        r == (a@ == b@),
{
    if a.len() != b.len() {
        return false;
    }
    let mut k: usize = 0;
    while k < a.len()
        invariant
            a@.len() == b@.len(),
            k <= a@.len(),
            forall|j: int| 0 <= j < k ==> a@[j] == b@[j],
        decreases a.len() - k,
    {
        if a[k] != b[k] {
            return false;
        }
        k = k + 1;
    }
    assert(a@ =~= b@);
    true
}

fn copy_line(line: &Vec<char>) -> (r: Vec<char>)
    ensures
        r@ == line@,
{
    let mut r: Vec<char> = Vec::new();
    let mut k: usize = 0;
    while k < line.len()
        invariant
            k <= line@.len(),
            r@ == line@.take(k as int),
        decreases line.len() - k,
    {
        r.push(line[k]);
        k = k + 1;
        assert(r@ =~= line@.take(k as int));
    }
    assert(line@.take(k as int) =~= line@);
    r
}

/// The run of lines equal to `lines[*p]` that starts at `*p`: its length
/// and the line. `*p` moves past the run.
pub fn get_run(lines: &Vec<Vec<char>>, p: &mut usize) -> (run: (usize, Vec<char>))
    requires
        *old(p) < lines@.len(),
    ensures
        *final(p) == run_end(texts(lines@), *old(p) as int, *old(p) + 1),
        run.0 == *final(p) - *old(p),
        run.1@ == lines@[*old(p) as int]@,
{
    let ghost t = texts(lines@);
    let start = *p;
    let n = lines.len();
    let mut run = (1usize, copy_line(&lines[start]));
    let mut i: usize = start + 1;
    while i < lines.len()
        invariant
            start == *old(p),
            start < i <= lines@.len(),
            t == texts(lines@),
            run.0 == i - start,
            run.1@ == lines@[start as int]@,
            run_end(t, start as int, start + 1) == run_end(t, start as int, i as int),
        decreases lines.len() - i,
    {
        if same_line(&lines[start], &lines[i]) {
            run.0 = run.0 + 1;
        } else {
            *p = i;
            return run;
        }
        i = i + 1;
    }
    *p = lines.len();
    run
}

/// The run-length encoding of `lines`: each maximal run of equal
/// consecutive lines becomes its length and the line.
pub fn get_rle(lines: Vec<Vec<char>>) -> (rle: Vec<(usize, Vec<char>)>)
    ensures
        runs_view(rle@) == runs_from(texts(lines@), 0),
{
    let ghost t = texts(lines@);
    let mut rle: Vec<(usize, Vec<char>)> = Vec::new();
    let mut i: usize = 0;
    while i < lines.len()
        invariant
            i <= lines@.len(),
            t == texts(lines@),
            runs_view(rle@) + runs_from(t, i as int) == runs_from(t, 0),
        decreases lines.len() - i,
    {
        let ghost before = i as int;
        proof {
            lemma_run_end_bounds(t, before, before + 1);
        }
        let run = get_run(&lines, &mut i);
        let ghost entry = (run.0 as nat, run.1@);
        assert(runs_from(t, before) == seq![entry] + runs_from(t, i as int));
        let ghost prev = rle@;
        rle.push(run);
        assert(runs_view(rle@) =~= runs_view(prev).push(entry));
        assert(runs_view(rle@) + runs_from(t, i as int) =~= runs_view(prev) + runs_from(
            t,
            before,
        ));
    }
    rle
}

proof fn lemma_covered_runs(t: Seq<Seq<char>>, p: int)
    requires
        0 <= p <= t.len(),
    ensures
        covered(runs_from(t, p)) == t.len() - p,
    decreases t.len() - p,
{
    if p < t.len() {
        lemma_run_end_bounds(t, p, p + 1);
        let e = run_end(t, p, p + 1);
        lemma_covered_runs(t, e);
        let x = ((e - p) as nat, t[p]);
        assert((seq![x] + runs_from(t, e)).drop_first() =~= runs_from(t, e));
    }
}

proof fn lemma_rows_count(bytes: Seq<u8>)
    ensures
        rows_of(bytes).len() <= bytes.len(),
    decreases bytes.len(),
{
    if bytes.len() > 8 {
        lemma_rows_count(bytes.skip(8));
    }
}

proof fn lemma_covered_skip(runs: Seq<(nat, Seq<char>)>, k: int)
    requires
        0 <= k < runs.len(),
    ensures
        covered(runs.skip(k)) == runs[k].0 + covered(runs.skip(k + 1)),
{
    assert(runs.skip(k).drop_first() =~= runs.skip(k + 1));
}

proof fn lemma_covered_skip_bound(runs: Seq<(nat, Seq<char>)>, k: int)
    requires
        0 <= k <= runs.len(),
    ensures
        covered(runs.skip(k)) <= covered(runs),
    decreases k,
{
    if k > 0 {
        lemma_covered_skip_bound(runs, k - 1);
        lemma_covered_skip(runs, k - 1);
    } else {
        assert(runs.skip(0) =~= runs);
    }
}

fn labelled(addr: u128, line: &Vec<char>) -> (r: Vec<char>)
    ensures
        r@ == labelled_text(addr as nat, line@),
{
    let mut r = address(addr);
    r.push(':');
    r.push(' ');
    let ghost head = r@;
    let mut k: usize = 0;
    while k < line.len()
        invariant
            k <= line@.len(),
            r@ == head + line@.take(k as int),
        decreases line.len() - k,
    {
        r.push(line[k]);
        k = k + 1;
        assert(r@ =~= head + line@.take(k as int));
    }
    assert(line@.take(k as int) =~= line@);
    r
}

fn format_runs(runs: &Vec<(usize, Vec<char>)>) -> (out: Vec<Vec<char>>)
    requires
        covered(runs_view(runs@)) <= usize::MAX,
    ensures
        texts(out@) == dump_from(runs_view(runs@), 0, 0),
{
    let ghost rv = runs_view(runs@);
    let mut out: Vec<Vec<char>> = Vec::new();
    let mut addr: u128 = 0;
    let mut k: usize = 0;
    assert(rv.skip(0) =~= rv);
    while k < runs.len()
        invariant
            rv == runs_view(runs@),
            covered(rv) <= usize::MAX,
            k <= runs@.len(),
            covered(rv.skip(k as int)) <= covered(rv),
            addr == 8 * (covered(rv) - covered(rv.skip(k as int))),
            texts(out@) + dump_from(rv, k as int, addr as nat) == dump_from(rv, 0, 0),
        decreases runs.len() - k,
    {
        proof {
            lemma_covered_skip(rv, k as int);
            lemma_covered_skip_bound(rv, k + 1);
        }
        let count = runs[k].0;
        let line = &runs[k].1;
        let ghost prev = texts(out@);
        let ghost start = addr;
        if count > 1 {
            out.push(labelled(addr, line));
            if count > 2 {
                out.push(vec!['.', '.', '.']);
            }
        }
        let last: u128 = if count >= 1 {
            addr + 8 * (count as u128 - 1)
        } else {
            addr
        };
        out.push(labelled(last, line));
        addr = addr + 8 * (count as u128);
        k = k + 1;
        assert(prev + dump_from(rv, k - 1, start as nat) =~= texts(out@) + dump_from(
            rv,
            k as int,
            addr as nat,
        ));
    }
    assert(texts(out@) =~= dump_from(rv, 0, 0));
    out
}

/// The lines of a dump of `bytes`: `COLUMNS` bytes per line, each line
/// labelled with the address of its first byte, runs of equal lines
/// shortened to their first and last line.
pub fn dump_lines(bytes: &Vec<u8>) -> (out: Vec<Vec<char>>)
    ensures
        texts(out@) == dump_spec(bytes@),
{
    let _size = bytes.len();
    let rows = get_rows(bytes);
    let lines = get_lines(rows);
    let ghost t = texts(lines@);
    assert(t =~= rows_of(bytes@).map_values(|r: Seq<u8>| row_text(r)));
    proof {
        lemma_covered_runs(t, 0);
        lemma_rows_count(bytes@);
    }
    let rle = get_rle(lines);
    format_runs(&rle)
}

} // verus!
