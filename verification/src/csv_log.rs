//! The CSV log of start/stop readings: its file name and the bytes of its lines.

use vstd::prelude::*;

verus! {

/// The character of decimal digit `d`.
pub open spec fn digit_char(d: nat) -> char {
    (48 + d) as char
}

/// The decimal representation of `n`, without leading zeros.
pub open spec fn decimal(n: nat) -> Seq<char>
    decreases n,
{
    if n < 10 {
        seq![digit_char(n)]
    } else {
        decimal(n / 10).push(digit_char(n % 10))
    }
}

/// The fields joined by commas.
pub open spec fn csv_join(fields: Seq<Seq<char>>) -> Seq<char>
    decreases fields.len(),
{
    if fields.len() == 0 {
        Seq::empty()
    } else if fields.len() == 1 {
        fields[0]
    } else {
        csv_join(fields.drop_last()) + seq![','] + fields.last()
    }
}

/// One CSV record: the fields joined by commas, ended by a newline.
pub open spec fn csv_line(fields: Seq<Seq<char>>) -> Seq<char> {
    csv_join(fields).push('\n')
}

/// The bytes of an ASCII text.
pub open spec fn ascii_bytes(s: Seq<char>) -> Seq<u8> {
    s.map_values(|c: char| c as u8)
}

/// An ASCII letter or digit.
pub open spec fn is_ascii_alphanumeric(c: char) -> bool {
    ('0' <= c <= '9') || ('A' <= c <= 'Z') || ('a' <= c <= 'z')
}

/// A field that the CSV writer writes as it is, without quotes: a non-empty run of
/// ASCII letters and digits.
pub open spec fn plain_field(f: Seq<char>) -> bool {
    f.len() > 0 && forall|i: int| 0 <= i < f.len() ==> is_ascii_alphanumeric(#[trigger] f[i])
}

/// The decimal fields of a row of counter values.
pub open spec fn decimal_fields(row: Seq<u64>) -> Seq<Seq<char>> {
    row.map_values(|v: u64| decimal(v as nat))
}

/// The views of a sequence of string slices.
pub open spec fn str_views(fields: Seq<&str>) -> Seq<Seq<char>> {
    fields.map_values(|f: &str| f@)
}

/// Writes one record with `csv::Writer::write_record`, on a writer built by
/// `csv::WriterBuilder::new()` over an in-memory buffer, and returns the buffer.
/// With the builder's defaults (comma delimiter, `\n` terminator, quoting only where
/// necessary) a record of non-empty fields made of ASCII letters and digits is
/// written as the fields joined by commas and ended by `\n`, which is what the
/// contract claims. Writing to memory cannot fail, so the unwraps never panic.
#[verifier::external_body]
pub(crate) fn csv_record_bytes(fields: &Vec<&str>) -> (res: Vec<u8>)
    requires
        fields@.len() > 0,
        forall|i: int| 0 <= i < fields@.len() ==> plain_field(#[trigger] fields@[i]@),
    ensures
        res@ == ascii_bytes(csv_line(str_views(fields@))),
{
    let mut wtr = csv::WriterBuilder::new().from_writer(Vec::new());
    wtr.write_record(fields).unwrap();
    wtr.into_inner().unwrap()
}

/// Writes one row of counter values with `csv::Writer::serialize`, on a writer built by
/// `csv::WriterBuilder::new()` over an in-memory buffer, and returns the buffer.
/// The writer renders each integer in decimal (through `itoa`) and a sequence of
/// integers writes no header; the contract claims the decimal fields joined by commas
/// and ended by `\n`. Writing to memory cannot fail, so the unwraps never panic.
#[verifier::external_body]
pub(crate) fn csv_row_bytes(row: &Vec<u64>) -> (res: Vec<u8>)
    requires
        row@.len() > 0,
    ensures
        res@ == ascii_bytes(csv_line(decimal_fields(row@))),
{
    let mut wtr = csv::WriterBuilder::new().from_writer(Vec::new());
    wtr.serialize(row).unwrap();
    wtr.into_inner().unwrap()
}

/// The decimal text of `n`, through `ToString::to_string` (the `Display` of `u64`,
/// which writes the value in decimal without leading zeros).
#[verifier::external_body]
fn u64_decimal(n: u64) -> (res: String)
    ensures
        res@ == decimal(n as nat),
{
    n.to_string()
}

/// The log file name: the vendor name, an underscore, the power units in decimal,
/// and the `.csv` extension.
pub fn log_file_name(cpu: &str, units: u64) -> (res: String)
    ensures
        res@ == cpu@ + "_"@ + decimal(units as nat) + ".csv"@,
{
    let name = cpu.to_owned();
    let name = name.concat("_");
    let digits = u64_decimal(units);
    let name = name.concat(digits.as_str());
    name.concat(".csv")
}

/// The decimal text of a number has at least two digits from ten on.
proof fn lemma_decimal_len(n: nat)
    ensures
        decimal(n).len() >= 1,
        n >= 10 ==> decimal(n).len() >= 2,
    decreases n,
{
    if n >= 10 {
        lemma_decimal_len(n / 10);
    }
}

/// Distinct numbers have distinct decimal texts.
pub proof fn lemma_decimal_injective(m: nat, n: nat)
    requires
        decimal(m) == decimal(n),
    ensures
        m == n,
    decreases m,
{
    lemma_decimal_len(m);
    lemma_decimal_len(n);
    if m < 10 && n < 10 {
        assert(decimal(m)[0] == digit_char(m));
        assert(decimal(n)[0] == digit_char(n));
    } else if m >= 10 && n >= 10 {
        let dm = decimal(m);
        let dn = decimal(n);
        assert(dm.last() == digit_char(m % 10));
        assert(dn.last() == digit_char(n % 10));
        assert(dm.drop_last() =~= decimal(m / 10));
        assert(dn.drop_last() =~= decimal(n / 10));
        lemma_decimal_injective(m / 10, n / 10);
    }
}

} // verus!
