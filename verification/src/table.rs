//! Tables of text records in CSV, encoded by the `csv` crate.

use vstd::prelude::*;

verus! {

/// The bytes that `csv::Writer` with its default settings writes for one
/// record: the fields, separated by commas and quoted where needed, then a
/// newline.
pub uninterp spec fn csv_record(fields: Seq<Seq<char>>) -> Seq<u8>;

/// A field that the writer copies as it stands: not empty, ASCII, and free
/// of the comma, the double quote and line breaks.
pub open spec fn plain_field(f: Seq<char>) -> bool {
    &&& f.len() > 0
    &&& forall|i: int|
        0 <= i < f.len() ==> {
            let c = #[trigger] f[i];
            &&& (c as u32) < 128
            &&& c != ','
            &&& c != '"'
            &&& c != '\r'
            &&& c != '\n'
        }
}

/// The bytes of an ASCII text.
pub open spec fn ascii_bytes(f: Seq<char>) -> Seq<u8> {
    f.map_values(|c: char| (c as u32) as u8)
}

/// Fields joined by commas, as ASCII bytes.
pub open spec fn comma_joined(fields: Seq<Seq<char>>) -> Seq<u8>
    decreases fields.len(),
{
    if fields.len() == 0 {
        Seq::empty()
    } else if fields.len() == 1 {
        ascii_bytes(fields[0])
    } else {
        ascii_bytes(fields[0]).push(44u8) + comma_joined(fields.drop_first())
    }
}

/// The records' bytes, one after the other.
pub open spec fn csv_table(records: Seq<Seq<Seq<char>>>) -> Seq<u8>
    decreases records.len(),
{
    if records.len() == 0 {
        Seq::empty()
    } else {
        csv_table(records.drop_last()) + csv_record(records.last())
    }
}

/// Every record has a field and all its fields are plain.
pub open spec fn plain_records(records: Seq<Seq<Seq<char>>>) -> bool {
    forall|i: int|
        0 <= i < records.len() ==> {
            &&& (#[trigger] records[i]).len() > 0
            &&& forall|j: int| 0 <= j < records[i].len() ==> plain_field(#[trigger] records[i][j])
        }
}

/// The bytes of plain records: each record's fields joined by commas and
/// ended by a newline.
pub open spec fn plain_table(records: Seq<Seq<Seq<char>>>) -> Seq<u8>
    decreases records.len(),
{
    if records.len() == 0 {
        Seq::empty()
    } else {
        plain_table(records.drop_last()) + comma_joined(records.last()).push(10u8)
    }
}

/// One record encoded by a fresh `csv::Writer` over a `Vec<u8>`
/// (`Writer::from_writer`, `write_record`, `into_inner`). Writing the first
/// record to memory cannot fail. A record of plain fields comes out as the
/// fields joined by commas, then a newline; the writer quotes nothing else.
#[verifier::external_body]
fn encode_record(fields: &Vec<String>) -> (bytes: Vec<u8>)
    ensures
        bytes@ == csv_record(fields.deep_view()),
        fields.len() > 0 && (forall|i: int| 0 <= i < fields.len() ==> plain_field(#[trigger] fields[i]@))
            ==> bytes@ == comma_joined(fields.deep_view()).push(10u8),
{
    let mut writer = csv::Writer::from_writer(Vec::new());
    writer.write_record(fields).unwrap();
    writer.into_inner().unwrap()
}

/// Encodes the records one after the other.
pub fn encode_table(records: &Vec<Vec<String>>) -> (bytes: Vec<u8>)
    ensures
        bytes@ == csv_table(records.deep_view()),
        plain_records(records.deep_view()) ==> bytes@ == plain_table(records.deep_view()),
{
    let mut bytes: Vec<u8> = Vec::new();
    let mut i: usize = 0;
    while i < records.len()
        invariant
            i <= records.len(),
            bytes@ == csv_table(records.deep_view().take(i as int)),
            plain_records(records.deep_view()) ==> bytes@ == plain_table(
                records.deep_view().take(i as int),
            ),
        decreases records.len() - i,
    {
        let mut record = encode_record(&records[i]);
        proof {
            let rs = records.deep_view();
            assert(rs.take(i + 1).drop_last() =~= rs.take(i as int));
            assert(rs.take(i + 1).last() == records[i as int].deep_view());
            if plain_records(rs) {
                assert(rs[i as int] == records[i as int].deep_view());
                assert forall|j: int| 0 <= j < records[i as int].len() implies plain_field(
                    #[trigger] records[i as int][j]@) by {
                    assert(rs[i as int][j] == records[i as int][j]@);
                }
            }
        }
        bytes.append(&mut record);
        i = i + 1;
    }
    proof {
        assert(records.deep_view().take(records.len() as int) =~= records.deep_view());
    }
    bytes
}

/// Three fields joined by commas, written out.
proof fn lemma_comma_joined_three(a: Seq<char>, b: Seq<char>, c: Seq<char>)
    ensures
        comma_joined(seq![a, b, c]) == ascii_bytes(a).push(44u8) + ascii_bytes(b).push(44u8)
            + ascii_bytes(c),
{
    reveal_with_fuel(comma_joined, 4);
    let f = seq![a, b, c];
    assert(f.drop_first() =~= seq![b, c]);
    assert(f.drop_first().drop_first() =~= seq![c]);
    assert(comma_joined(seq![a, b, c]) =~= ascii_bytes(a).push(44u8) + ascii_bytes(b).push(44u8)
        + ascii_bytes(c));
}

/// The bytes of a one-character ASCII text.
proof fn lemma_ascii_single(c: char)
    ensures
        ascii_bytes(seq![c]) == seq![(c as u32) as u8],
{
    assert(ascii_bytes(seq![c]) =~= seq![(c as u32) as u8]);
}

/// The two sample records `1,2,3` and `x,y,z`.
pub fn sample_records() -> (records: Vec<Vec<String>>)
    ensures
        records.deep_view() == seq![seq!["1"@, "2"@, "3"@], seq!["x"@, "y"@, "z"@]],
{
    let mut first: Vec<String> = Vec::new();
    first.push(String::from_str("1"));
    first.push(String::from_str("2"));
    first.push(String::from_str("3"));
    let mut second: Vec<String> = Vec::new();
    second.push(String::from_str("x"));
    second.push(String::from_str("y"));
    second.push(String::from_str("z"));
    assert(first.deep_view() =~= seq!["1"@, "2"@, "3"@]);
    assert(second.deep_view() =~= seq!["x"@, "y"@, "z"@]);
    let mut records: Vec<Vec<String>> = Vec::new();
    records.push(first);
    records.push(second);
    assert(records.deep_view() =~= seq![seq!["1"@, "2"@, "3"@], seq!["x"@, "y"@, "z"@]]);
    records
}

/// The sample table as CSV: `1,2,3\nx,y,z\n`.
pub fn sample_table() -> (bytes: Vec<u8>)
    ensures
        bytes@ == seq![49u8, 44, 50, 44, 51, 10, 120, 44, 121, 44, 122, 10],
{
    let records = sample_records();
    proof {
        reveal_strlit("1");
        reveal_strlit("2");
        reveal_strlit("3");
        reveal_strlit("x");
        reveal_strlit("y");
        reveal_strlit("z");
        let r1 = seq!["1"@, "2"@, "3"@];
        let r2 = seq!["x"@, "y"@, "z"@];
        let rs = seq![r1, r2];
        assert forall|i: int, j: int| 0 <= i < rs.len() && 0 <= j < rs[i].len() implies plain_field(
            #[trigger] rs[i][j]) by {
            assert(rs[i][j].len() == 1);
        }
        assert(plain_records(rs));
        lemma_comma_joined_three("1"@, "2"@, "3"@);
        lemma_comma_joined_three("x"@, "y"@, "z"@);
        lemma_ascii_single('1');
        lemma_ascii_single('2');
        lemma_ascii_single('3');
        lemma_ascii_single('x');
        lemma_ascii_single('y');
        lemma_ascii_single('z');
        reveal_with_fuel(plain_table, 3);
        assert(rs.drop_last() =~= seq![r1]);
        assert(seq![r1].drop_last() =~= Seq::<Seq<Seq<char>>>::empty());
        assert(plain_table(rs) =~= seq![49u8, 44, 50, 44, 51, 10, 120, 44, 121, 44, 122, 10]);
    }
    encode_table(&records)
}

} // verus!
