//! Text helpers: comparison, decimal rendering and joining of strings.
use vstd::prelude::*;

verus! {

/// `a` and `b` hold the same characters.
pub fn str_eq(a: &str, b: &str) -> (r: bool)
    ensures
        r == (a@ == b@),
{
    let la = a.unicode_len();
    let lb = b.unicode_len();
    if la != lb {
        return false;
    }
    let mut i: usize = 0;
    while i < la
        invariant
            la == a@.len(),
            lb == b@.len(),
            la == lb,
            i <= la,
            forall|j: int| 0 <= j < i ==> a@[j] == b@[j],
        decreases la - i,
    {
        if a.get_char(i) != b.get_char(i) {
            return false;
        }
        i = i + 1;
    }
    assert(a@ =~= b@);
    true
}

/// The character of decimal digit `d`.
pub open spec fn digit_char(d: nat) -> char {
    ((48 + d) as u32) as char
}

/// Decimal rendering of a natural number, without leading zeros.
pub open spec fn nat_to_dec(n: nat) -> Seq<char>
    decreases n,
{
    if n < 10 {
        seq![digit_char(n)]
    } else {
        nat_to_dec(n / 10).push(digit_char(n % 10))
    }
}

/// Decimal rendering of an integer, with a leading `-` when negative.
pub open spec fn int_to_dec(i: int) -> Seq<char> {
    if i < 0 {
        seq!['-'] + nat_to_dec((-i) as nat)
    } else {
        nat_to_dec(i as nat)
    }
}

fn digit_str(d: u64) -> (s: &'static str)
    requires
        d < 10,
    ensures
        s@ == seq![digit_char(d as nat)],
{
    proof {
        reveal_strlit("0");
        reveal_strlit("1");
        reveal_strlit("2");
        reveal_strlit("3");
        reveal_strlit("4");
        reveal_strlit("5");
        reveal_strlit("6");
        reveal_strlit("7");
        reveal_strlit("8");
        reveal_strlit("9");
    }
    let s = match d {
        0 => "0",
        1 => "1",
        2 => "2",
        3 => "3",
        4 => "4",
        5 => "5",
        6 => "6",
        7 => "7",
        8 => "8",
        _ => "9",
    };
    assert(s@ =~= seq![digit_char(d as nat)]);
    s
}

/// The decimal rendering of `n`, as `n.to_string()` gives it.
pub fn u64_to_string(n: u64) -> (s: String)
    ensures
        s@ == nat_to_dec(n as nat),
    decreases n,
{
    if n < 10 {
        String::from_str(digit_str(n))
    } else {
        let mut s = u64_to_string(n / 10);
        s.append(digit_str(n % 10));
        s
    }
}

/// The decimal rendering of `i`, as `i.to_string()` gives it.
pub fn i64_to_string(i: i64) -> (s: String)
    ensures
        s@ == int_to_dec(i as int),
{
    if i < 0 {
        let m: u64 = if i == i64::MIN {
            9223372036854775808u64
        } else {
            (-i) as u64
        };
        proof { reveal_strlit("-"); }
        let mut s = String::from_str("-");
        let d = u64_to_string(m);
        s.append(d.as_str());
        s
    } else {
        u64_to_string(i as u64)
    }
}

/// Strict lexicographic order on character sequences, by code point, which is
/// the order of `String`s.
pub open spec fn seq_less(a: Seq<char>, b: Seq<char>) -> bool
    decreases a.len(),
{
    if b.len() == 0 {
        false
    } else if a.len() == 0 {
        true
    } else if (a[0] as u32) < (b[0] as u32) {
        true
    } else if (a[0] as u32) > (b[0] as u32) {
        false
    } else {
        seq_less(a.drop_first(), b.drop_first())
    }
}

/// Whether `a` sorts strictly before `b`.
pub fn string_less(a: &String, b: &String) -> (r: bool)
    ensures
        r == seq_less(a@, b@),
{
    let sa = a.as_str();
    let sb = b.as_str();
    let la = sa.unicode_len();
    let lb = sb.unicode_len();
    let mut i: usize = 0;
    assert(a@.skip(0) =~= a@);
    assert(b@.skip(0) =~= b@);
    while i < la && i < lb
        invariant
            la == a@.len(),
            lb == b@.len(),
            i <= la,
            i <= lb,
            sa@ == a@,
            sb@ == b@,
            forall|j: int| 0 <= j < i ==> a@[j] == b@[j],
            seq_less(a@, b@) == seq_less(a@.skip(i as int), b@.skip(i as int)),
        decreases la - i,
    {
        let ca = sa.get_char(i) as u32;
        let cb = sb.get_char(i) as u32;
        proof {
            let x = a@.skip(i as int);
            let y = b@.skip(i as int);
            assert(x[0] == a@[i as int]);
            assert(y[0] == b@[i as int]);
            assert(x.drop_first() =~= a@.skip(i + 1));
            assert(y.drop_first() =~= b@.skip(i + 1));
        }
        if ca < cb {
            return true;
        }
        if ca > cb {
            return false;
        }
        proof {
            assert(a@[i as int] == b@[i as int]) by {
                assert(a@[i as int] as u32 == b@[i as int] as u32);
            }
        }
        i = i + 1;
    }
    proof {
        let x = a@.skip(i as int);
        let y = b@.skip(i as int);
        assert(i == la ==> x.len() == 0);
        assert(i == lb ==> y.len() == 0);
    }
    i == la && i < lb
}

/// `n` spaces.
pub open spec fn spaces(n: nat) -> Seq<char> {
    Seq::new(n, |_i: int| ' ')
}

/// The parts separated by `sep`.
pub open spec fn join(parts: Seq<Seq<char>>, sep: Seq<char>) -> Seq<char>
    decreases parts.len(),
{
    if parts.len() == 0 {
        Seq::empty()
    } else if parts.len() == 1 {
        parts[0]
    } else {
        join(parts.drop_last(), sep) + sep + parts.last()
    }
}

/// The views of a sequence of strings.
pub open spec fn string_views(v: Seq<String>) -> Seq<Seq<char>> {
    v.map_values(|s: String| s@)
}

/// `parts.join(sep)`.
pub fn join_strings(parts: &Vec<String>, sep: &str) -> (r: String)
    ensures
        r@ == join(string_views(parts@), sep@),
{
    let mut res = String::new();
    let ghost views = string_views(parts@);
    let mut i: usize = 0;
    while i < parts.len()
        invariant
            views == string_views(parts@),
            i <= parts.len(),
            res@ == join(views.take(i as int), sep@),
        decreases parts.len() - i,
    {
        proof {
            assert(views.take(i + 1).drop_last() =~= views.take(i as int));
            assert(views.take(i + 1).last() == parts@[i as int]@);
        }
        if i != 0 {
            res.append(sep);
        } else {
            assert(views.take(1) =~= seq![parts@[0]@]);
            assert(Seq::<char>::empty() + parts@[0]@ =~= parts@[0]@);
        }
        res.append(parts[i].as_str());
        i = i + 1;
    }
    assert(views.take(parts.len() as int) =~= views);
    res
}

/// `s` followed by `n` spaces.
pub fn append_spaces(s: &mut String, n: usize)
    ensures
        final(s)@ == old(s)@ + spaces(n as nat),
{
    let mut i: usize = 0;
    proof { reveal_strlit(" "); }
    while i < n
        invariant
            i <= n,
            s@ == old(s)@ + spaces(i as nat),
        decreases n - i,
    {
        proof { reveal_strlit(" "); }
        s.append(" ");
        assert(" "@ =~= seq![' ']);
        assert(s@ =~= old(s)@ + spaces((i + 1) as nat));
        i = i + 1;
    }
}


/// The views of a table of strings.
pub open spec fn table_views(rows: Seq<Vec<String>>) -> Seq<Seq<Seq<char>>> {
    rows.map_values(|r: Vec<String>| string_views(r@))
}

/// Width of column `j`: the longest cell in that column.
pub open spec fn col_width(rows: Seq<Seq<Seq<char>>>, j: int) -> nat
    decreases rows.len(),
{
    if rows.len() == 0 {
        0
    } else {
        let w = col_width(rows.drop_last(), j);
        let c = if 0 <= j < rows.last().len() {
            rows.last()[j].len()
        } else {
            0
        };
        if w >= c {
            w
        } else {
            c
        }
    }
}

/// A row of the table: each cell but the last padded to its column's width,
/// cells separated by one space.
pub open spec fn format_row(rows: Seq<Seq<Seq<char>>>, cells: Seq<Seq<char>>) -> Seq<char> {
    join(
        Seq::new(
            cells.len(),
            |j: int|
                if j < cells.len() - 1 {
                    cells[j] + spaces((col_width(rows, j) - cells[j].len()) as nat)
                } else {
                    cells[j]
                },
        ),
        " "@,
    )
}

/// Every column is at least as wide as each of its cells.
pub proof fn lemma_col_width_bound(rows: Seq<Seq<Seq<char>>>, i: int, j: int)
    requires
        0 <= i < rows.len(),
        0 <= j < rows[i].len(),
    ensures
        col_width(rows, j) >= rows[i][j].len(),
    decreases rows.len(),
{
    if i < rows.len() - 1 {
        lemma_col_width_bound(rows.drop_last(), i, j);
    }
}

fn str_len(s: &String) -> (n: usize)
    ensures
        n == s@.len(),
{
    s.as_str().unicode_len()
}

/// The lines of a laid-out table.
pub open spec fn layout(rows: Seq<Seq<Seq<char>>>) -> Seq<Seq<char>> {
    Seq::new(rows.len(), |i: int| format_row(rows, rows[i]))
}

/// Lays out rows of cells as aligned text lines.
pub fn format_table(rows: &Vec<Vec<String>>) -> (lines: Vec<String>)
    ensures
        string_views(lines@) == layout(table_views(rows@)),
        lines@.len() == rows@.len(),
        forall|i: int|
            0 <= i < rows@.len() ==> #[trigger] lines@[i]@ == format_row(
                table_views(rows@),
                string_views(rows@[i]@),
            ),
{
    let ghost tv = table_views(rows@);
    // column widths
    let mut widths: Vec<usize> = Vec::new();
    let mut r: usize = 0;
    while r < rows.len()
        invariant
            tv == table_views(rows@),
            r <= rows.len(),
            forall|j: int|
                0 <= j < widths.len() ==> #[trigger] widths@[j] == col_width(tv.take(r as int), j),
            forall|j: int| widths.len() <= j ==> col_width(tv.take(r as int), j) == 0,
            forall|k: int| 0 <= k < r ==> (#[trigger] tv[k]).len() <= widths.len(),
        decreases rows.len() - r,
    {
        let row = &rows[r];
        let ghost prev = tv.take(r as int);
        let ghost next = tv.take(r + 1);
        assert(next.drop_last() =~= prev);
        assert(next.last() == string_views(row@));
        let mut j: usize = 0;
        let ghost old_widths = widths@;
        while j < row.len()
            invariant
                tv == table_views(rows@),
                row@ == rows@[r as int]@,
                next.drop_last() == prev,
                next.last() == string_views(row@),
                next == tv.take(r + 1),
                prev == tv.take(r as int),
                j <= row.len(),
                widths.len() >= old_widths.len(),
                forall|k: int|
                    0 <= k < widths.len() ==> #[trigger] widths@[k] == if k < j {
                        col_width(next, k)
                    } else {
                        col_width(prev, k)
                    },
                forall|k: int| widths.len() <= k ==> col_width(prev, k) == 0,
                j <= widths.len(),
                forall|k: int| 0 <= k < r ==> (#[trigger] tv[k]).len() <= old_widths.len(),
                r < rows.len(),
            decreases row.len() - j,
        {
            let c = str_len(&row[j]);
            proof {
                assert(next.len() == r + 1);
                assert(string_views(row@).len() == row@.len());
                assert(next.last()[j as int] == row@[j as int]@);
                assert(c == next.last()[j as int].len());
                let cw = col_width(next, j as int);
                assert(cw == if col_width(prev, j as int) >= c { col_width(prev, j as int) } else { c as nat });
            }
            if j < widths.len() {
                let w = widths[j];
                if c > w {
                    widths.set(j, c);
                }
            } else {
                widths.push(c);
            }
            j = j + 1;
        }
        proof {
            assert forall|k: int| widths.len() <= k implies col_width(next, k) == 0 by {
                assert(k >= row@.len());
                assert(col_width(next, k) == col_width(prev, k));
            }
            assert forall|k: int| 0 <= k < r + 1 implies (#[trigger] tv[k]).len() <= widths.len() by {
                if k == r {
                    assert(tv[k] == string_views(row@));
                }
            }
            assert forall|k: int| 0 <= k < widths.len() implies #[trigger] widths@[k] == col_width(next, k) by {
                if k >= j {
                    assert(k >= row@.len());
                    assert(col_width(next, k) == col_width(prev, k));
                }
            }
        }
        r = r + 1;
    }
    assert(tv.take(rows.len() as int) =~= tv);
    // lines
    let mut lines: Vec<String> = Vec::new();
    let mut i: usize = 0;
    while i < rows.len()
        invariant
            tv == table_views(rows@),
            i <= rows.len(),
            lines@.len() == i,
            forall|j: int| 0 <= j < widths.len() ==> #[trigger] widths@[j] == col_width(tv, j),
            forall|k: int| 0 <= k < rows.len() ==> (#[trigger] tv[k]).len() <= widths.len(),
            forall|k: int|
                0 <= k < i ==> #[trigger] lines@[k]@ == format_row(tv, string_views(rows@[k]@)),
        decreases rows.len() - i,
    {
        let row = &rows[i];
        let ghost cells = string_views(row@);
        let ghost padded = Seq::new(
            cells.len(),
            |j: int|
                if j < cells.len() - 1 {
                    cells[j] + spaces((col_width(tv, j) - cells[j].len()) as nat)
                } else {
                    cells[j]
                },
        );
        let mut line = String::new();
        let mut j: usize = 0;
        assert(tv[i as int] == cells);
        while j < row.len()
            invariant
                tv == table_views(rows@),
                row@ == rows@[i as int]@,
                cells == string_views(row@),
                tv[i as int] == cells,
                i < rows.len(),
                j <= row.len(),
                padded.len() == cells.len(),
                forall|k: int| 0 <= k < widths.len() ==> #[trigger] widths@[k] == col_width(tv, k),
                cells.len() <= widths.len(),
                forall|k: int| 0 <= k < padded.len() ==> #[trigger] padded[k] == if k < cells.len() - 1 {
                    cells[k] + spaces((col_width(tv, k) - cells[k].len()) as nat)
                } else {
                    cells[k]
                },
                line@ == join(padded.take(j as int), " "@),
            decreases row.len() - j,
        {
            proof {
                assert(padded.take(j + 1).drop_last() =~= padded.take(j as int));
                reveal_strlit(" ");
            }
            if j != 0 {
                line.append(" ");
            } else {
                assert(padded.take(1) =~= seq![padded[0]]);
            }
            let ghost before = line@;
            line.append(row[j].as_str());
            if j + 1 < row.len() {
                proof { lemma_col_width_bound(tv, i as int, j as int); }
                let c = str_len(&row[j]);
                let w = widths[j];
                append_spaces(&mut line, w - c);
            }
            proof {
                if j == 0 {
                    assert(line@ =~= padded[0]);
                    assert(join(padded.take(1), " "@) == padded[0]);
                } else {
                    assert(line@ =~= join(padded.take(j as int), " "@) + " "@ + padded[j as int]);
                }
            }
            j = j + 1;
        }
        assert(padded.take(row.len() as int) =~= padded);
        lines.push(line);
        i = i + 1;
    }
    assert(string_views(lines@) =~= layout(tv));
    lines
}


/// Distinct characters have distinct code points.
pub proof fn lemma_char_code_injective(x: char, y: char)
    ensures
        (x as u32) == (y as u32) ==> x == y,
{
}

/// [`seq_less`] is a strict total order.
pub proof fn lemma_seq_less_order(a: Seq<char>, b: Seq<char>, c: Seq<char>)
    ensures
        !seq_less(a, a),
        seq_less(a, b) ==> !seq_less(b, a),
        seq_less(a, b) && seq_less(b, c) ==> seq_less(a, c),
        a != b ==> seq_less(a, b) || seq_less(b, a),
    decreases a.len(),
{
    if a.len() > 0 {
        lemma_seq_less_order(a.drop_first(), b.drop_first(), c.drop_first());
        if b.len() > 0 {
            lemma_char_code_injective(a[0], b[0]);
        }
        if b.len() > 0 && a[0] == b[0] && a.drop_first() == b.drop_first() {
            assert(a =~= b) by {
                assert forall|i: int| 0 <= i < a.len() implies a[i] == b[i] by {
                    if i > 0 {
                        assert(a[i] == a.drop_first()[i - 1]);
                        assert(b[i] == b.drop_first()[i - 1]);
                    }
                }
            }
        }
    } else {
        assert(b.len() == 0 ==> a =~= b);
    }
}

/// "Does not sort after" is transitive.
pub proof fn lemma_seq_le_trans(a: Seq<char>, b: Seq<char>, c: Seq<char>)
    requires
        !seq_less(b, a),
        !seq_less(c, b),
    ensures
        !seq_less(c, a),
{
    lemma_seq_less_order(c, a, b);
    lemma_seq_less_order(a, b, c);
    lemma_seq_less_order(b, a, c);
}

} // verus!
