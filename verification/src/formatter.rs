//! Rendering of listings: the cells of each entry, a table, CSV, and the
//! short one-line summaries.

use vstd::prelude::*;
use vstd::utf8::{decode_utf8, encode_utf8, valid_utf8};
use crate::config::OutputFormat;
use crate::numeric::{decimal, decimal_exec};
use crate::port_info::{PortInfo, PortModel, models};
use crate::text::{chars_of, string_of};

verus! {

broadcast use vstd::string::group_string_axioms;

// ---------------------------------------------------------------------------
// Cells
// ---------------------------------------------------------------------------

/// The text of an optional value, `-` when it is absent.
pub open spec fn or_dash(o: Option<Seq<char>>) -> Seq<char> {
    match o {
        Some(s) => s,
        None => seq!['-'],
    }
}

/// The cells of one entry: protocol, local address, remote address, state,
/// pid (in decimal) and process name, with `-` for what is unknown.
pub open spec fn entry_cells(m: PortModel) -> Seq<Seq<char>> {
    seq![
        m.protocol,
        m.local_addr,
        or_dash(m.remote_addr),
        m.state,
        or_dash(
            match m.pid {
                Some(p) => Some(decimal(p as nat)),
                None => None,
            },
        ),
        or_dash(m.process_name),
    ]
}

/// The header row of a listing.
pub open spec fn header_cells() -> Seq<Seq<char>> {
    seq![
        "Protocol"@,
        "Local Address"@,
        "Remote Address"@,
        "State"@,
        "PID"@,
        "Process"@,
    ]
}

/// The rows of a listing: the header, then one row per entry.
pub open spec fn listing_rows(ms: Seq<PortModel>) -> Seq<Seq<Seq<char>>> {
    seq![header_cells()] + ms.map_values(|m: PortModel| entry_cells(m))
}

/// The texts held by rows of strings.
pub open spec fn rows_view(rows: Seq<Vec<String>>) -> Seq<Seq<Seq<char>>> {
    rows.map_values(|r: Vec<String>| r@.map_values(|s: String| s@))
}

fn dash_or(o: &Option<String>) -> (r: String)
    ensures
        r@ == or_dash(crate::port_info::opt_view(*o)),
{
    match o {
        Some(s) => s.clone(),
        None => {
            let mut v: Vec<char> = Vec::new();
            v.push('-');
            assert(v@ =~= seq!['-']);
            string_of(v.as_slice())
        },
    }
}

/// The cells of one entry (see `entry_cells`).
pub fn table_row(port: &PortInfo) -> (r: Vec<String>)
    ensures
        r@.map_values(|s: String| s@) == entry_cells(port@),
{
    let pid = match port.pid {
        Some(p) => Some(string_of(decimal_exec(p).as_slice())),
        None => None,
    };
    let mut r: Vec<String> = Vec::new();
    r.push(port.protocol.clone());
    r.push(port.local_addr.clone());
    r.push(dash_or(&port.remote_addr));
    r.push(port.state.clone());
    r.push(dash_or(&pid));
    r.push(dash_or(&port.process_name));
    assert(r@.map_values(|s: String| s@) =~= entry_cells(port@));
    r
}

fn header_row() -> (r: Vec<String>)
    ensures
        r@.map_values(|s: String| s@) == header_cells(),
{
    let mut r: Vec<String> = Vec::new();
    r.push("Protocol".to_owned());
    r.push("Local Address".to_owned());
    r.push("Remote Address".to_owned());
    r.push("State".to_owned());
    r.push("PID".to_owned());
    r.push("Process".to_owned());
    assert(r@.map_values(|s: String| s@) =~= header_cells());
    r
}

/// The rows of a listing (see `listing_rows`).
pub fn listing_table_rows(ports: &[PortInfo]) -> (r: Vec<Vec<String>>)
    ensures
        rows_view(r@) == listing_rows(models(ports@)),
{
    let mut rows: Vec<Vec<String>> = Vec::new();
    rows.push(header_row());
    let ghost ms = models(ports@);
    let n = ports.len();
    for i in 0..n
        invariant
            n == ports@.len() == ms.len(),
            ms == models(ports@),
            rows_view(rows@) == seq![header_cells()] + ms.take(i as int).map_values(
                |m: PortModel| entry_cells(m),
            ),
    {
        let ghost prev = rows@;
        let row = table_row(&ports[i]);
        rows.push(row);
        assert(ms.take(i + 1).map_values(|m: PortModel| entry_cells(m)) =~= ms.take(
            i as int,
        ).map_values(|m: PortModel| entry_cells(m)).push(entry_cells(ms[i as int])));
        assert(rows_view(rows@) =~= rows_view(prev).push(entry_cells(ms[i as int])));
    }
    assert(ms.take(n as int) == ms);
    rows
}

// ---------------------------------------------------------------------------
// Table
// ---------------------------------------------------------------------------

/// The text that `tabled` draws for these rows (first row as header, in
/// its default style).
pub uninterp spec fn table_text(rows: Seq<Seq<Seq<char>>>) -> Seq<char>;

/// `tabled::Table::from_iter` on the rows, displayed. The drawing is named
/// by `table_text`, a function of the rows alone; its layout is not
/// restated here.
#[verifier::external_body]
fn render_table(rows: Vec<Vec<String>>) -> (r: String)
    ensures
        r@ == table_text(rows_view(rows@)),
{
    tabled::Table::from_iter(rows).to_string()
}

/// What a table listing shows: a note when there is nothing to list, else
/// the drawn table of the header and one row per entry.
pub open spec fn table_listing(ms: Seq<PortModel>) -> Seq<char> {
    if ms.len() == 0 {
        "No ports found."@
    } else {
        table_text(listing_rows(ms))
    }
}

/// Draws a listing as a table (see `table_listing`).
pub fn format_table(ports: &[PortInfo]) -> (r: String)
    ensures
        r@ == table_listing(models(ports@)),
{
    if ports.len() == 0 {
        return "No ports found.".to_owned();
    }
    render_table(listing_table_rows(ports))
}

// ---------------------------------------------------------------------------
// CSV
// ---------------------------------------------------------------------------

/// A CSV writer with the default settings that writes into memory.
#[verifier::external_body]
pub struct CsvSink {
    writer: csv::Writer<Vec<u8>>,
}

#[verifier::external_type_specification]
#[verifier::external_body]
pub struct ExCsvError(csv::Error);

#[verifier::external_type_specification]
#[verifier::external_body]
pub struct ExFromUtf8Error(std::string::FromUtf8Error);

/// The records that a CSV writer holds, in the order they were written.
pub uninterp spec fn csv_records(w: CsvSink) -> Seq<Seq<Seq<char>>>;

/// Whether a field must be quoted: it holds a comma, a quote, a carriage
/// return or a line feed.
pub open spec fn csv_needs_quotes(field: Seq<char>) -> bool {
    exists|i: int|
        0 <= i < field.len() && (field[i] == ',' || field[i] == '"' || field[i] == '\r' || field[i]
            == '\n')
}

/// A field's text with each quote doubled.
pub open spec fn csv_doubled_quotes(field: Seq<char>) -> Seq<char>
    decreases field.len(),
{
    if field.len() == 0 {
        Seq::empty()
    } else {
        let rest = csv_doubled_quotes(field.drop_first());
        if field[0] == '"' {
            seq!['"', '"'] + rest
        } else {
            seq![field[0]] + rest
        }
    }
}

/// How a field is written: in quotes, with its quotes doubled, when it
/// must be quoted; as it is otherwise.
pub open spec fn csv_field(field: Seq<char>) -> Seq<char> {
    if csv_needs_quotes(field) {
        seq!['"'] + csv_doubled_quotes(field) + seq!['"']
    } else {
        field
    }
}

/// The fields of a record, written and separated by commas.
pub open spec fn csv_joined(record: Seq<Seq<char>>) -> Seq<char>
    decreases record.len(),
{
    if record.len() == 0 {
        Seq::empty()
    } else if record.len() == 1 {
        csv_field(record[0])
    } else {
        csv_joined(record.drop_last()) + seq![','] + csv_field(record.last())
    }
}

/// How a record is written: its joined fields (a pair of quotes when
/// those are empty), then a line feed.
pub open spec fn csv_record(record: Seq<Seq<char>>) -> Seq<char> {
    let body = csv_joined(record);
    (if body.len() == 0 {
        seq!['"', '"']
    } else {
        body
    }) + seq!['\n']
}

/// The text that a CSV writer with the default settings produces for
/// these records: each record written in turn.
pub open spec fn csv_text(records: Seq<Seq<Seq<char>>>) -> Seq<char>
    decreases records.len(),
{
    if records.len() == 0 {
        Seq::empty()
    } else {
        csv_text(records.drop_last()) + csv_record(records.last())
    }
}

/// `csv::Writer::from_writer` on an empty byte vector: a writer that holds
/// no record.
#[verifier::external_body]
fn csv_writer() -> (w: CsvSink)
    ensures
        csv_records(w) == Seq::<Seq<Seq<char>>>::empty(),
{
    CsvSink { writer: csv::Writer::from_writer(Vec::new()) }
}

/// `csv::Writer::write_record` on a writer into memory. With the default
/// settings the writer checks that every record has as many fields as the
/// first one, and writing into a byte vector does not fail otherwise; so a
/// record of that length is written, and the writer holds one more record,
/// this one.
#[verifier::external_body]
fn csv_write_record(w: &mut CsvSink, record: &Vec<String>) -> (r: Result<(), csv::Error>)
    requires
        csv_records(*old(w)).len() == 0 || csv_records(*old(w))[0].len() == record@.len(),
    ensures
        r is Ok,
        csv_records(*final(w)) == csv_records(*old(w)).push(record@.map_values(|s: String| s@)),
{
    w.writer.write_record(record)
}

/// `csv::Writer::into_inner` on a writer into memory: flushing into a byte
/// vector does not fail, so it gives back what was written for the records
/// that the writer holds: the UTF-8 encoding of their CSV text (see
/// `csv_text`; the writer copies the bytes of each field in order, and
/// quotes and separators are ASCII).
#[verifier::external_body]
fn csv_into_bytes(w: CsvSink) -> (r: Option<Vec<u8>>)
    ensures
        r is Some,
        r matches Some(b) ==> b@ == encode_utf8(csv_text(csv_records(w))),
{
    match w.writer.into_inner() {
        Ok(b) => Some(b),
        Err(_) => None,
    }
}

/// `String::from_utf8`: succeeds exactly on valid UTF-8, with the decoded
/// characters.
#[verifier::external_body]
fn utf8_string(bytes: Vec<u8>) -> (r: Result<String, std::string::FromUtf8Error>)
    ensures
        r is Ok <==> valid_utf8(bytes@),
        r matches Ok(s) ==> s@ == decode_utf8(bytes@),
{
    String::from_utf8(bytes)
}

/// Why a listing could not be rendered.
#[derive(Debug, Clone, Copy, PartialEq, Eq, Structural)]
pub enum FormatError {
    /// The CSV writer failed.
    Csv,
    /// The CSV output was not UTF-8.
    Utf8,
}

/// What a CSV listing shows: the header and one row per entry, written as
/// CSV.
pub open spec fn csv_listing(ms: Seq<PortModel>) -> Seq<char> {
    csv_text(listing_rows(ms))
}

/// Renders a listing as CSV: the header record, then one record per entry
/// (see `csv_listing`). It always succeeds: every record has as many
/// fields as the header.
pub fn format_csv(ports: &[PortInfo]) -> (r: Result<String, FormatError>)
    ensures
        r matches Ok(s) && s@ == csv_listing(models(ports@)),
{
    let rows = listing_table_rows(ports);
    proof {
        crate::laws::law_rows_match_header(models(ports@));
    }
    let mut w = csv_writer();
    let n = rows.len();
    assert(rows_view(rows@).take(0) =~= Seq::<Seq<Seq<char>>>::empty());
    for i in 0..n
        invariant
            n == rows@.len(),
            rows_view(rows@) == listing_rows(models(ports@)),
            forall|j: int| 0 <= j < n ==> (#[trigger] rows_view(rows@)[j]).len() == 6,
            csv_records(w) == rows_view(rows@).take(i as int),
    {
        assert(rows_view(rows@)[i as int].len() == rows@[i as int]@.len());
        if i > 0 {
            assert(csv_records(w)[0] == rows_view(rows@)[0]);
        }
        match csv_write_record(&mut w, &rows[i]) {
            Ok(()) => {},
            Err(_) => {
                return Err(FormatError::Csv);
            },
        }
        assert(rows_view(rows@).take(i + 1) =~= rows_view(rows@).take(i as int).push(
            rows@[i as int]@.map_values(|s: String| s@),
        ));
    }
    assert(rows_view(rows@).take(n as int) == rows_view(rows@));
    let bytes = match csv_into_bytes(w) {
        Some(b) => b,
        None => {
            return Err(FormatError::Csv);
        },
    };
    proof {
        vstd::utf8::encode_utf8_valid_utf8(csv_text(rows_view(rows@)));
        vstd::utf8::encode_utf8_decode_utf8(csv_text(rows_view(rows@)));
    }
    match utf8_string(bytes) {
        Ok(s) => Ok(s),
        Err(_) => Err(FormatError::Utf8),
    }
}

// ---------------------------------------------------------------------------
// Choosing a rendering
// ---------------------------------------------------------------------------

/// A rendered listing: text for the formats drawn here, or the structured
/// format that the caller's serializer is to produce for the entries.
pub enum Rendering {
    Text(String),
    Json,
    Yaml,
}

/// Renders a listing in the chosen format: a table or CSV here; JSON and
/// YAML are handed back to be serialized.
pub fn format_ports(ports: &[PortInfo], format: &OutputFormat) -> (r: Result<Rendering, FormatError>)
    ensures
        match format {
            OutputFormat::Table => r matches Ok(Rendering::Text(s)) && s@ == table_listing(models(ports@)),
            OutputFormat::Csv => r matches Ok(Rendering::Text(s)) && s@ == csv_listing(models(ports@)),
            OutputFormat::Json => r matches Ok(Rendering::Json),
            OutputFormat::Yaml => r matches Ok(Rendering::Yaml),
        },
{
    match format {
        OutputFormat::Table => Ok(Rendering::Text(format_table(ports))),
        OutputFormat::Csv => match format_csv(ports) {
            Ok(s) => Ok(Rendering::Text(s)),
            Err(e) => Err(e),
        },
        OutputFormat::Json => Ok(Rendering::Json),
        OutputFormat::Yaml => Ok(Rendering::Yaml),
    }
}

// ---------------------------------------------------------------------------
// One-line summaries
// ---------------------------------------------------------------------------

/// `Port N: STATUS`, followed by ` (PROCESS)` when a process is given.
pub open spec fn single_port_line(port: u16, status: Seq<char>, process: Option<Seq<char>>) -> Seq<char> {
    let head = "Port "@ + decimal(port as nat) + ": "@ + status;
    match process {
        Some(p) => head + " ("@ + p + ")"@,
        None => head,
    }
}

/// One line about one port (see `single_port_line`).
pub fn format_single_port(port: u16, status: &str, process: Option<&str>) -> (r: String)
    ensures
        r@ == single_port_line(port, status@, crate::report::opt_str_view(process)),
{
    let mut v = chars_of("Port ");
    crate::scanner::push_all(&mut v, decimal_exec(port as u32).as_slice());
    crate::scanner::push_all(&mut v, chars_of(": ").as_slice());
    crate::scanner::push_all(&mut v, chars_of(status).as_slice());
    match process {
        Some(p) => {
            crate::scanner::push_all(&mut v, chars_of(" (").as_slice());
            crate::scanner::push_all(&mut v, chars_of(p).as_slice());
            crate::scanner::push_all(&mut v, chars_of(")").as_slice());
        },
        None => {},
    }
    string_of(v.as_slice())
}

/// The decimal ports of a list joined by `, `.
pub open spec fn joined_ports(ports: Seq<u16>) -> Seq<char>
    decreases ports.len(),
{
    if ports.len() == 0 {
        Seq::empty()
    } else if ports.len() == 1 {
        decimal(ports[0] as nat)
    } else {
        joined_ports(ports.drop_last()) + ", "@ + decimal(ports.last() as nat)
    }
}

/// A short text for a list of ports: `No ports`, `Port N`, or
/// `Ports: A, B, ...`.
pub open spec fn port_list_text(ports: Seq<u16>) -> Seq<char> {
    if ports.len() == 0 {
        "No ports"@
    } else if ports.len() == 1 {
        "Port "@ + decimal(ports[0] as nat)
    } else {
        "Ports: "@ + joined_ports(ports)
    }
}

/// A short text for a list of ports (see `port_list_text`).
pub fn format_port_list(ports: &[u16]) -> (r: String)
    ensures
        r@ == port_list_text(ports@),
{
    if ports.len() == 0 {
        return "No ports".to_owned();
    }
    if ports.len() == 1 {
        let mut v = chars_of("Port ");
        crate::scanner::push_all(&mut v, decimal_exec(ports[0] as u32).as_slice());
        return string_of(v.as_slice());
    }
    let mut joined = decimal_exec(ports[0] as u32);
    let n = ports.len();
    assert(ports@.take(1).drop_last() =~= Seq::<u16>::empty());
    assert(joined_ports(ports@.take(1)) == decimal(ports@[0] as nat));
    for i in 1..n
        invariant
            n == ports@.len(),
            joined@ == joined_ports(ports@.take(i as int)),
    {
        assert(ports@.take(i + 1).drop_last() == ports@.take(i as int));
        crate::scanner::push_all(&mut joined, chars_of(", ").as_slice());
        crate::scanner::push_all(&mut joined, decimal_exec(ports[i] as u32).as_slice());
    }
    assert(ports@.take(n as int) == ports@);
    let mut v = chars_of("Ports: ");
    crate::scanner::push_all(&mut v, joined.as_slice());
    string_of(v.as_slice())
}

} // verus!
