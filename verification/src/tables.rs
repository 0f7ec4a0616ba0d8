//! Tables of names, one row per line, with tabs between the cells.

use crate::text::{
    decimal, decimal_text, join, joined, law_decimal_reads_back, law_texts_are_put_together,
    lemma_before_all, lemma_digits_hold_no_other, lemma_split, sanitize, sanitized, sanitized_char,
    split_on, texts,
};
use vstd::prelude::*;

verus! {

/// A team or an athlete.
pub struct NamedRow {
    pub id: u64,
    pub name: String,
}

/// A table of ids and names, with a header.
pub struct NameTable {
    lines: Vec<String>,
}

/// A row of a table.
pub open spec fn row_text(row: NamedRow) -> Seq<char> {
    decimal(row.id as nat) + "\t"@ + sanitized(row.name@)
}

/// The rows of those that were found, in order.
pub open spec fn row_texts(rows: Seq<Option<NamedRow>>) -> Seq<Seq<char>>
    decreases rows.len(),
{
    if rows.len() == 0 {
        Seq::empty()
    } else {
        match rows.last() {
            Some(row) => row_texts(rows.drop_last()).push(row_text(row)),
            None => row_texts(rows.drop_last()),
        }
    }
}

/// The lines of a table: a header, and the rows of those that were found.
pub open spec fn table_lines(rows: Seq<Option<NamedRow>>) -> Seq<Seq<char>> {
    seq!["id\tname"@] + row_texts(rows)
}

/// Lines as they are written to a file.
pub open spec fn lines_text(lines: Seq<Seq<char>>) -> Seq<char> {
    joined(lines, "\n"@) + "\n"@
}

/// The ids of the enabled champions, one per line.
pub fn champion_table(available_champions: &Vec<String>) -> (contents: String)
    ensures
        contents@ == lines_text(texts(available_champions@)),
{
    let mut contents = join(available_champions, "\n");
    contents.append("\n");
    contents
}

impl NameTable {
    /// The lines of the table: the header, and the rows below it.
    pub closed spec fn lines(self) -> Seq<Seq<char>> {
        texts(self.lines@)
    }

    /// There is always a header.
    #[verifier::type_invariant]
    spec fn has_header(self) -> bool {
        self.lines.len() > 0
    }

    /// A table of what was found, in order. An id under which the game has nothing is
    /// left out.
    pub fn new(rows: &Vec<Option<NamedRow>>) -> (table: Self)
        ensures
            table.lines() == table_lines(rows@),
    {
        let mut lines: Vec<String> = Vec::new();
        lines.push("id\tname".to_string());
        assert(texts(lines@) =~= table_lines(rows@.take(0)));
        let mut i: usize = 0;
        while i < rows.len()
            invariant
                i <= rows.len(),
                texts(lines@) == table_lines(rows@.take(i as int)),
            decreases rows.len() - i,
        {
            assert(rows@.take(i + 1).drop_last() == rows@.take(i as int));
            if let Some(row) = &rows[i] {
                let mut line = decimal_text(row.id as u128);
                line.append("\t");
                let name = sanitize(row.name.as_str());
                line.append(name.as_str());
                let ghost before = lines@;
                let ghost text = line@;
                lines.push(line);
                assert(texts(lines@) =~= texts(before).push(text));
                assert(texts(lines@) =~= table_lines(rows@.take(i + 1)));
            }
            i += 1;
        }
        assert(rows@.take(i as int) == rows@);
        assert(texts(lines@).len() == lines.len());
        NameTable { lines }
    }

    /// The table as it is written.
    pub fn contents(&self) -> (contents: String)
        ensures
            contents@ == lines_text(self.lines()),
    {
        let mut contents = join(&self.lines, "\n");
        contents.append("\n");
        contents
    }

    /// How many rows there are below the header.
    pub fn count(&self) -> (count: usize)
        ensures
            count == self.lines().len() - 1,
    {
        proof {
            use_type_invariant(self);
        }
        self.lines.len() - 1
    }
}

/// A cleaned name holds no tab, no line feed and no carriage return, is as long as the
/// name, and is the name itself where that holds none. Cleaning it again changes
/// nothing.
pub proof fn law_sanitized_names_are_safe(name: Seq<char>)
    ensures
        !sanitized(name).contains('\t'),
        !sanitized(name).contains('\n'),
        !sanitized(name).contains('\r'),
        sanitized(name).len() == name.len(),
        !name.contains('\t') && !name.contains('\n') && !name.contains('\r') ==> sanitized(name)
            == name,
        sanitized(sanitized(name)) == sanitized(name),
{
    let clean = sanitized(name);
    assert forall|i: int| 0 <= i < clean.len() implies clean[i] == sanitized_char(
        name[i],
    ) && clean[i] != '\t' && clean[i] != '\n' && clean[i] != '\r' by {}
    if !name.contains('\t') && !name.contains('\n') && !name.contains('\r') {
        assert forall|i: int| 0 <= i < name.len() implies clean[i] == name[i] by {
            assert(name.contains(name[i]));
        }
        assert(clean =~= name);
    }
    assert(sanitized(clean) =~= clean);
}

/// Whatever the name, a row has two cells: the id and the cleaned name.
pub proof fn law_rows_have_two_cells(row: NamedRow)
    ensures
        split_on(row_text(row), '\t') == seq![decimal(row.id as nat), sanitized(row.name@)],
{
    reveal_strlit("\t");
    assert("\t"@ =~= seq!['\t']);
    law_decimal_reads_back(row.id as nat);
    lemma_digits_hold_no_other(decimal(row.id as nat), '\t');
    law_sanitized_names_are_safe(row.name@);
    lemma_split(decimal(row.id as nat), sanitized(row.name@), '\t');
    lemma_before_all(sanitized(row.name@), '\t');
    assert(split_on(row_text(row), '\t') =~= seq![decimal(row.id as nat), sanitized(row.name@)]);
}

/// Whatever the names, the lines of a table's file are the header and the rows: a
/// stray name cannot break a row.
pub proof fn law_tables_split_into_rows(rows: Seq<Option<NamedRow>>)
    ensures
        split_on(lines_text(table_lines(rows)), '\n') == table_lines(rows).push(Seq::empty()),
{
    assert forall|i: int| 0 <= i < table_lines(rows).len() implies !(
    #[trigger] table_lines(rows)[i]).contains('\n') by {
        if i == 0 {
            reveal_strlit("id\tname");
        } else {
            lemma_rows_are_lines(rows);
            assert(table_lines(rows)[i] == row_texts(rows)[i - 1]);
        }
    }
    lemma_lines_split(table_lines(rows));
}

/// The champions' file lists the ids one per line, as long as no id holds a line feed.
pub proof fn law_champion_table_lists_the_ids(ids: Seq<Seq<char>>)
    requires
        ids.len() > 0,
        forall|i: int| 0 <= i < ids.len() ==> !(#[trigger] ids[i]).contains('\n'),
    ensures
        split_on(lines_text(ids), '\n') == ids.push(Seq::empty()),
{
    lemma_lines_split(ids);
}

proof fn lemma_rows_are_lines(rows: Seq<Option<NamedRow>>)
    ensures
        forall|i: int|
            0 <= i < row_texts(rows).len() ==> !(#[trigger] row_texts(rows)[i]).contains('\n'),
    decreases rows.len(),
{
    if rows.len() > 0 {
        lemma_rows_are_lines(rows.drop_last());
        if let Some(row) = rows.last() {
            reveal_strlit("\t");
            law_decimal_reads_back(row.id as nat);
            lemma_digits_hold_no_other(decimal(row.id as nat), '\n');
            law_sanitized_names_are_safe(row.name@);
            let text = row_text(row);
            let digits = decimal(row.id as nat);
            assert(text[digits.len() as int] == '\t');
            if text.contains('\n') {
                let k = choose|k: int| 0 <= k < text.len() && text[k] == '\n';
                if k < digits.len() {
                    assert(digits[k] == '\n');
                } else if k > digits.len() {
                    assert(sanitized(row.name@)[k - digits.len() - 1] == '\n');
                }
            }
            let earlier = row_texts(rows.drop_last());
            assert forall|i: int| 0 <= i < row_texts(rows).len() implies !(
            #[trigger] row_texts(rows)[i]).contains('\n') by {
                if i < earlier.len() {
                    assert(row_texts(rows)[i] == earlier[i]);
                } else {
                    assert(row_texts(rows)[i] == text);
                }
            }
        }
    }
}

/// Lines put together from the front.
proof fn lemma_joined_front(lines: Seq<Seq<char>>, separator: Seq<char>)
    requires
        lines.len() > 1,
    ensures
        joined(lines, separator) == lines[0] + separator + joined(lines.skip(1), separator),
    decreases lines.len(),
{
    assert(lines.skip(1).last() == lines.last());
    if lines.len() == 2 {
        assert(joined(lines.drop_last(), separator) == lines[0]);
        assert(joined(lines.skip(1), separator) == lines[1]);
    } else {
        lemma_joined_front(lines.drop_last(), separator);
        assert(lines.drop_last().skip(1) =~= lines.skip(1).drop_last());
        assert(joined(lines, separator) =~= lines[0] + separator + (joined(
            lines.skip(1).drop_last(),
            separator,
        ) + separator + lines.last()));
    }
}

/// Lines without line feeds are what the text of the lines splits into.
pub(crate) proof fn lemma_lines_split(lines: Seq<Seq<char>>)
    requires
        lines.len() > 0,
        forall|i: int| 0 <= i < lines.len() ==> !(#[trigger] lines[i]).contains('\n'),
    ensures
        split_on(lines_text(lines), '\n') == lines.push(Seq::empty()),
    decreases lines.len(),
{
    reveal_strlit("\n");
    let feed = seq!['\n'];
    let none = Seq::<char>::empty();
    assert("\n"@ =~= feed);
    assert(!lines[0].contains('\n'));
    if lines.len() == 1 {
        lemma_split(lines[0], none, '\n');
        assert(lines_text(lines) =~= lines[0] + feed + none);
        assert(split_on(none, '\n') =~= seq![none]);
        assert(split_on(lines_text(lines), '\n') =~= lines.push(none));
    } else {
        let rest = lines.skip(1);
        lemma_joined_front(lines, "\n"@);
        assert forall|i: int| 0 <= i < rest.len() implies !(#[trigger] rest[i]).contains('\n') by {
            assert(rest[i] == lines[i + 1]);
        }
        lemma_lines_split(rest);
        lemma_split(lines[0], lines_text(rest), '\n');
        assert(lines_text(lines) =~= lines[0] + feed + lines_text(rest));
        assert(split_on(lines_text(lines), '\n') =~= lines.push(none));
    }
}

/// Everything that was found has a row, once, and in order.
pub proof fn law_everything_found_has_a_row(rows: Seq<Option<NamedRow>>)
    ensures
        row_texts(rows) == rows.filter_map(
            |row: Option<NamedRow>|
                match row {
                    Some(found) => Some(row_text(found)),
                    None => None,
                },
        ),
        row_texts(rows).len() == rows.filter(|row: Option<NamedRow>| row is Some).len(),
        table_lines(rows).len() == 1 + rows.filter(|row: Option<NamedRow>| row is Some).len(),
        table_lines(rows)[0] == "id\tname"@,
        table_lines(rows).skip(1) == row_texts(rows),
    decreases rows.len(),
{
    reveal(Seq::filter);
    if rows.len() > 0 {
        law_everything_found_has_a_row(rows.drop_last());
    }
    assert(table_lines(rows).skip(1) =~= row_texts(rows));
}

/// The rows of a list and then of another are those of the first and then those of the
/// other. What was found has a row, and what was not is left out.
pub proof fn law_rows_stand_in_order(
    rows: Seq<Option<NamedRow>>,
    others: Seq<Option<NamedRow>>,
    row: NamedRow,
)
    ensures
        row_texts(rows + others) == row_texts(rows) + row_texts(others),
        row_texts(seq![Some(row)]) == seq![row_text(row)],
        row_texts(seq![None]) == Seq::<Seq<char>>::empty(),
        row_text(row) == decimal(row.id as nat) + seq!['\t'] + sanitized(row.name@),
    decreases others.len(),
{
    reveal_strlit("\t");
    assert("\t"@ =~= seq!['\t']);
    reveal_with_fuel(row_texts, 2);
    let one = seq![Some(row)];
    let none = seq![None::<NamedRow>];
    assert(one.drop_last() =~= Seq::<Option<NamedRow>>::empty());
    assert(none.drop_last() =~= Seq::<Option<NamedRow>>::empty());
    assert(row_texts(one) =~= seq![row_text(row)]);
    if others.len() > 0 {
        law_rows_stand_in_order(rows, others.drop_last(), row);
        assert((rows + others).drop_last() =~= rows + others.drop_last());
    } else {
        assert(rows + others =~= rows);
    }
    assert(row_texts(rows + others) =~= row_texts(rows) + row_texts(others));
}

/// A file of lines has a line feed after each line, and one line feed where there are no
/// lines.
pub proof fn law_lines_end_with_line_feeds(
    lines: Seq<Seq<char>>,
    others: Seq<Seq<char>>,
    line: Seq<char>,
)
    ensures
        lines_text(Seq::empty()) == seq!['\n'],
        lines_text(seq![line]) == line.push('\n'),
        lines.len() > 0 && others.len() > 0 ==> lines_text(lines + others) == lines_text(lines)
            + lines_text(others),
{
    reveal_strlit("\n");
    assert("\n"@ =~= seq!['\n']);
    law_texts_are_put_together(lines, others, "\n"@, line);
    assert(lines_text(Seq::empty()) =~= seq!['\n']);
    assert(lines_text(seq![line]) =~= line.push('\n'));
    if lines.len() > 0 && others.len() > 0 {
        assert(lines_text(lines + others) =~= lines_text(lines) + lines_text(others));
    }
}

} // verus!
