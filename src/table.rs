use vstd::prelude::*;
use vstd::string::*;
use vstd::utf8::encode_utf8;

verus! {

/// How a value is placed inside a column of fixed width.
#[derive(PartialEq, Eq, Structural, Debug, Clone, Copy)]
pub enum Align {
    Left,
    Right,
    Center,
}

/// The text styles a cell or a message can be shown in.
#[derive(PartialEq, Eq, Structural, Debug, Clone, Copy)]
pub enum Color {
    White,
    BoldWhite,
    BoldRed,
    BoldGreen,
    BoldBlue,
}

/// The type of a result column, as far as the layout of a table cares.
#[derive(PartialEq, Eq, Structural, Debug, Clone, Copy)]
pub enum ColumnType {
    Text,
    Varchar,
    Bool,
    Int2,
    Int4,
    Int8,
    Float4,
    Float8,
    Timestamp,
    TimestampTz,
    Date,
    Other,
}

/// `n` copies of `pad`, one after the other.
pub open spec fn repeat(pad: Seq<char>, n: nat) -> Seq<char>
    decreases n,
{
    if n == 0 {
        Seq::empty()
    } else {
        repeat(pad, (n - 1) as nat) + pad
    }
}

/// Numbers, dates and times are right-aligned; everything else is left-aligned.
pub open spec fn alignment_of(t: ColumnType) -> Align {
    match t {
        ColumnType::Int2 | ColumnType::Int4 | ColumnType::Int8 | ColumnType::Float4
        | ColumnType::Float8 | ColumnType::Date | ColumnType::Timestamp
        | ColumnType::TimestampTz => Align::Right,
        _ => Align::Left,
    }
}

/// `column` padded with spaces to `width` bytes, placed as `align` says; a centred
/// value gets the odd space on its right.
pub open spec fn formatted(column: Seq<char>, padlen: nat, align: Align) -> Seq<char> {
    let sp = seq![' '];
    match align {
        Align::Right => repeat(sp, padlen) + column,
        Align::Left => column + repeat(sp, padlen),
        Align::Center => repeat(sp, padlen / 2) + column + repeat(sp, padlen / 2 + padlen % 2),
    }
}

/// The escape sequence that switches the terminal to `color`.
pub open spec fn color_prefix(color: Color) -> Seq<char> {
    match color {
        Color::White => "\x1B[33m\x1B[37m"@,
        Color::BoldWhite => "\x1B[33m\x1B[1m\x1B[33m\x1B[37m"@,
        Color::BoldRed => "\x1B[33m\x1B[1m\x1B[33m\x1B[31m"@,
        Color::BoldGreen => "\x1B[33m\x1B[1m\x1B[33m\x1B[32m"@,
        Color::BoldBlue => "\x1B[33m\x1B[1m\x1B[33m\x1B[34m"@,
    }
}

/// The escape sequence that ends a coloured run of text.
pub open spec fn color_suffix() -> Seq<char> {
    "\x1B[33m\x1B[0m"@
}

/// The number of bytes `s` takes in UTF-8.
pub open spec fn byte_width(s: Seq<char>) -> nat {
    encode_utf8(s).len()
}

/// The text of a cell: the value, or nothing for a missing one.
pub open spec fn cell_value(v: Option<String>) -> Seq<char> {
    match v {
        Some(s) => s@,
        None => Seq::empty(),
    }
}

/// `text` shown in `color`.
pub open spec fn colored(text: Seq<char>, color: Color) -> Seq<char> {
    color_prefix(color) + text + color_suffix()
}

/// A table of query results: column names and types, the widest value of each
/// column, and the rows as text.
pub struct TableDesc {
    pub names: Vec<String>,
    pub types: Vec<ColumnType>,
    pub widths: Vec<usize>,
    pub data: Vec<Vec<String>>,
}

impl TableDesc {
    /// One width per column, each at least that of the column's name and of
    /// every value in it.
    pub open spec fn wf(&self) -> bool {
        &&& self.names@.len() == self.widths@.len()
        &&& self.types@.len() == self.widths@.len()
        &&& forall|i: int| 0 <= i < self.widths@.len() ==> #[trigger] self.widths@[i] <= usize::MAX - 2
        &&& self.row_fits(self.names@)
        &&& forall|r: int| 0 <= r < self.data@.len() ==> self.row_fits(#[trigger] self.data@[r]@)
    }

    /// Every value of `row` fits the width of its column.
    pub open spec fn row_fits(&self, row: Seq<String>) -> bool {
        &&& row.len() <= self.widths@.len()
        &&& forall|i: int| 0 <= i < row.len() ==> byte_width((#[trigger] row[i])@) <= self.widths@[i]
    }

    /// The text of cell `i` of a row, with the separator before it.
    pub open spec fn cell_text(&self, row: Seq<String>, i: int, is_header: bool) -> Seq<char> {
        let sep = if i > 0 {
            colored("|"@, Color::BoldWhite)
        } else {
            Seq::empty()
        };
        let padlen = (self.widths@[i] - byte_width(row[i]@)) as nat;
        let body = if is_header {
            colored(formatted(row[i]@, padlen, Align::Center), Color::BoldWhite)
        } else {
            formatted(row[i]@, padlen, alignment_of(self.types@[i]))
        };
        sep + " "@ + body + " "@
    }

    /// The first `k` cells of a row.
    pub open spec fn cells(&self, row: Seq<String>, k: nat, is_header: bool) -> Seq<char>
        decreases k,
    {
        if k == 0 {
            Seq::empty()
        } else {
            self.cells(row, (k - 1) as nat, is_header) + self.cell_text(row, k - 1, is_header)
        }
    }

    /// The rule under the header, over the first `k` columns.
    pub open spec fn rule(&self, k: nat) -> Seq<char>
        decreases k,
    {
        if k == 0 {
            Seq::empty()
        } else {
            let sep = if k > 1 {
                colored("+"@, Color::BoldWhite)
            } else {
                Seq::empty()
            };
            self.rule((k - 1) as nat) + sep + colored(
                repeat("-"@, (self.widths@[k - 1] + 2) as nat),
                Color::BoldWhite,
            )
        }
    }

    /// The lines shown for a row; a header row is centred and underlined.
    pub open spec fn row_lines(&self, row: Seq<String>, is_header: bool) -> Seq<char> {
        self.cells(row, row.len(), is_header) + "\n"@ + if is_header {
            self.rule(self.widths@.len() as nat) + "\n"@
        } else {
            Seq::empty()
        }
    }

    /// The first `k` data rows, shown.
    pub open spec fn data_lines(&self, k: nat) -> Seq<char>
        decreases k,
    {
        if k == 0 {
            Seq::empty()
        } else {
            self.data_lines((k - 1) as nat) + self.row_lines(self.data@[k - 1]@, false)
        }
    }

    /// A table with no columns and no rows.
    pub fn new() -> (r: TableDesc)
        ensures
            r.wf(),
            r.names@.len() == 0,
            r.types@.len() == 0,
            r.widths@.len() == 0,
            r.data@.len() == 0,
    {
        TableDesc { names: Vec::new(), types: Vec::new(), widths: Vec::new(), data: Vec::new() }
    }

    /// Adds a column named `name` of type `coltype`, as wide as its name.
    pub fn register_column(&mut self, name: String, coltype: ColumnType)
        requires
            old(self).wf(),
            byte_width(name@) <= usize::MAX - 2,
        ensures
            final(self).wf(),
            final(self).names@ == old(self).names@.push(name),
            final(self).types@ == old(self).types@.push(coltype),
            final(self).widths@ == old(self).widths@.push(byte_width(name@) as usize),
            final(self).data@ == old(self).data@,
    {
        let w: usize = name.as_str().len();
        self.widths.push(w);
        self.names.push(name);
        self.types.push(coltype);
        assert forall|r: int| 0 <= r < self.data@.len() implies self.row_fits(
            #[trigger] self.data@[r]@,
        ) by {
            assert(old(self).row_fits(old(self).data@[r]@));
        }
        assert(self.row_fits(self.names@)) by {
            assert(old(self).row_fits(old(self).names@));
        }
    }

    /// Adds a row; a missing value shows as empty text. Each column's width grows
    /// to fit the new value.
    pub fn append(&mut self, row: Vec<Option<String>>)
        requires
            old(self).wf(),
            row@.len() <= old(self).widths@.len(),
            forall|i: int| 0 <= i < row@.len() ==> byte_width(cell_value(#[trigger] row@[i]))
                <= usize::MAX - 2,
        ensures
            final(self).wf(),
            final(self).names@ == old(self).names@,
            final(self).types@ == old(self).types@,
            final(self).data@.len() == old(self).data@.len() + 1,
            final(self).data@.drop_last() == old(self).data@,
            final(self).data@.last()@.len() == row@.len(),
            forall|i: int|
                0 <= i < row@.len() ==> (#[trigger] final(self).data@.last()@[i])@ == cell_value(
                    row@[i],
                ),
            final(self).widths@.len() == old(self).widths@.len(),
            forall|i: int|
                0 <= i < old(self).widths@.len() ==> #[trigger] final(self).widths@[i] == if i
                    < row@.len() && old(self).widths@[i] < byte_width(cell_value(row@[i])) {
                    byte_width(cell_value(row@[i])) as usize
                } else {
                    old(self).widths@[i]
                },
    {
        let mut colvals: Vec<String> = Vec::new();
        let mut i: usize = 0;
        while i < row.len()
            invariant
                i <= row@.len(),
                row@.len() <= self.widths@.len(),
                self.widths@.len() == old(self).widths@.len(),
                self.names@ == old(self).names@,
                self.types@ == old(self).types@,
                self.data@ == old(self).data@,
                forall|j: int| 0 <= j < row@.len() ==> byte_width(cell_value(#[trigger] row@[j]))
                    <= usize::MAX - 2,
                colvals@.len() == i,
                forall|j: int| 0 <= j < i ==> (#[trigger] colvals@[j])@ == cell_value(row@[j]),
                forall|j: int|
                    0 <= j < old(self).widths@.len() ==> #[trigger] self.widths@[j] == if j < i
                        && old(self).widths@[j] < byte_width(cell_value(row@[j])) {
                        byte_width(cell_value(row@[j])) as usize
                    } else {
                        old(self).widths@[j]
                    },
            decreases row@.len() - i,
        {
            let col: String = match &row[i] {
                Some(s) => s.clone(),
                None => String::new(),
            };
            let len: usize = col.as_str().len();
            if len > self.widths[i] {
                self.widths.set(i, len);
            }
            colvals.push(col);
            i = i + 1;
        }
        self.data.push(colvals);
        assert(self.data@.drop_last() =~= old(self).data@);
        assert forall|r: int| 0 <= r < self.data@.len() implies self.row_fits(
            #[trigger] self.data@[r]@,
        ) by {
            if r < old(self).data@.len() {
                assert(old(self).row_fits(old(self).data@[r]@));
            }
        }
        assert(self.row_fits(self.names@)) by {
            assert(old(self).row_fits(old(self).names@));
        }
    }

    /// The lines that show `rowdata`: a data row aligned by column type, or the
    /// header, centred, with a rule under it.
    pub fn print_row(&self, rowdata: &Vec<String>, is_header: bool) -> (r: String)
        requires
            self.wf(),
            self.row_fits(rowdata@),
        ensures
            r@ == self.row_lines(rowdata@, is_header),
    {
        let mut out = String::new();
        let mut i: usize = 0;
        while i < rowdata.len()
            invariant
                self.wf(),
                self.row_fits(rowdata@),
                i <= rowdata@.len(),
                out@ == self.cells(rowdata@, i as nat, is_header),
            decreases rowdata@.len() - i,
        {
            if i > 0 {
                out.append(TableDesc::color_text("|", Color::BoldWhite).as_str());
            }
            out.append(" ");
            let col = rowdata[i].as_str();
            assert(byte_width(rowdata@[i as int]@) <= self.widths@[i as int]);
            if is_header {
                let f = TableDesc::format_field(col, self.widths[i], Align::Center);
                out.append(TableDesc::color_text(f.as_str(), Color::BoldWhite).as_str());
            } else {
                let f = TableDesc::format_field(
                    col,
                    self.widths[i],
                    TableDesc::get_alignment(&self.types[i]),
                );
                out.append(f.as_str());
            }
            out.append(" ");
            i = i + 1;
            assert(out@ =~= self.cells(rowdata@, i as nat, is_header));
        }
        out.append("\n");
        if is_header {
            let mut k: usize = 0;
            let ghost head = out@;
            while k < self.widths.len()
                invariant
                    self.wf(),
                    k <= self.widths@.len(),
                    out@ == head + self.rule(k as nat),
                decreases self.widths@.len() - k,
            {
                if k > 0 {
                    out.append(TableDesc::color_text("+", Color::BoldWhite).as_str());
                }
                let w: usize = self.widths[k];
                let dashes = TableDesc::pad_gen(w + 2, "-");
                out.append(TableDesc::color_text(dashes.as_str(), Color::BoldWhite).as_str());
                k = k + 1;
                assert(out@ =~= head + self.rule(k as nat));
            }
            out.append("\n");
        }
        assert(out@ =~= self.row_lines(rowdata@, is_header));
        out
    }

    /// The whole table: the header, then every row.
    pub fn print(&self) -> (r: String)
        requires
            self.wf(),
        ensures
            r@ == self.row_lines(self.names@, true) + self.data_lines(self.data@.len() as nat),
    {
        let mut out = self.print_row(&self.names, true);
        let ghost head = out@;
        let mut k: usize = 0;
        while k < self.data.len()
            invariant
                self.wf(),
                k <= self.data@.len(),
                out@ == head + self.data_lines(k as nat),
            decreases self.data@.len() - k,
        {
            assert(self.row_fits(self.data@[k as int]@));
            let line = self.print_row(&self.data[k], false);
            out.append(line.as_str());
            k = k + 1;
            assert(out@ =~= head + self.data_lines(k as nat));
        }
        out
    }

    /// The alignment of values of a column of type `coltype`.
    pub fn get_alignment(coltype: &ColumnType) -> (r: Align)
        ensures
            r == alignment_of(*coltype),
    {
        match coltype {
            ColumnType::Int2 => Align::Right,
            ColumnType::Int4 => Align::Right,
            ColumnType::Int8 => Align::Right,
            ColumnType::Float4 => Align::Right,
            ColumnType::Float8 => Align::Right,
            ColumnType::Date => Align::Right,
            ColumnType::Timestamp => Align::Right,
            ColumnType::TimestampTz => Align::Right,
            _ => Align::Left,
        }
    }

    /// `pad` repeated `len` times.
    pub fn pad_gen(len: usize, pad: &str) -> (r: String)
        ensures
            r@ == repeat(pad@, len as nat),
    {
        let mut padstr = String::new();
        let mut i: usize = 0;
        while i < len
            invariant
                i <= len,
                padstr@ == repeat(pad@, i as nat),
            decreases len - i,
        {
            padstr.append(pad);
            i = i + 1;
        }
        padstr
    }

    /// `column` padded with spaces to `width` bytes.
    pub fn format_field(column: &str, width: usize, align: Align) -> (r: String)
        requires
            column.spec_bytes().len() <= width,
        ensures
            r@ == formatted(column@, (width - column.spec_bytes().len()) as nat, align),
    {
        let padlen: usize = width - column.len();
        let extra: usize = padlen % 2;
        proof {
            reveal_strlit(" ");
            assert(" "@ =~= seq![' ']);
        }
        match align {
            Align::Right => TableDesc::pad_gen(padlen, " ").concat(column),
            Align::Left => String::from_str(column).concat(TableDesc::pad_gen(padlen, " ").as_str()),
            Align::Center => {
                let left = TableDesc::pad_gen(padlen / 2, " ");
                let right = TableDesc::pad_gen(padlen / 2 + extra, " ");
                left.concat(column).concat(right.as_str())
            },
        }
    }

    /// `text` wrapped in the escape sequences that show it in `color`.
    pub fn color_text(text: &str, color: Color) -> (r: String)
        ensures
            r@ == color_prefix(color) + text@ + color_suffix(),
    {
        let prefix: &str = match color {
            Color::White => "\x1B[33m\x1B[37m",
            Color::BoldWhite => "\x1B[33m\x1B[1m\x1B[33m\x1B[37m",
            Color::BoldRed => "\x1B[33m\x1B[1m\x1B[33m\x1B[31m",
            Color::BoldGreen => "\x1B[33m\x1B[1m\x1B[33m\x1B[32m",
            Color::BoldBlue => "\x1B[33m\x1B[1m\x1B[33m\x1B[34m",
        };
        String::from_str(prefix).concat(text).concat("\x1B[33m\x1B[0m")
    }
}

} // verus!
