//! File generation from a table directive: CSV encoding is verified
//! character by character; spreadsheet encoding and base64 inlining go
//! through the outside crates. Generated files are stored as rows of the
//! store model.

use vstd::prelude::*;
use vstd::string::StrSliceExecFns;
use vstd::string::StringExecFns;
use vstd::string::StringSliceAdditionalSpecFns;
use crate::models::{TableSpec, TableView, FileAttachment, FileAttachmentView};
use crate::store::{Store, StoreView, FileRow, FileRowView};
use crate::manager::ChatError;
use crate::text::{chars_of, string_of_chars, push_all, to_lower, spec_lower, str_eq};

verus! {

/// A cell with every line feed replaced by a space, so that it stays on one
/// CSV line.
pub open spec fn spec_sanitize_cell(c: Seq<char>) -> Seq<char> {
    c.map_values(
        |ch: char|
            if ch == '\n' {
                ' '
            } else {
                ch
            },
    )
}

/// The cells from index `i` on, joined with commas.
pub open spec fn spec_csv_line(cells: Seq<Seq<char>>, i: int) -> Seq<char>
    decreases cells.len() - i,
{
    if i < 0 || i >= cells.len() {
        Seq::empty()
    } else if i == cells.len() - 1 {
        cells[i]
    } else {
        cells[i] + seq![','] + spec_csv_line(cells, i + 1)
    }
}

/// The CSV data lines from row `i` on: each row sanitized, comma-joined and
/// terminated by a line feed.
pub open spec fn spec_csv_rows(rows: Seq<Seq<Seq<char>>>, i: int) -> Seq<char>
    decreases rows.len() - i,
{
    if i < 0 || i >= rows.len() {
        Seq::empty()
    } else {
        spec_csv_line(rows[i].map_values(|c: Seq<char>| spec_sanitize_cell(c)), 0) + seq!['\n']
            + spec_csv_rows(rows, i + 1)
    }
}

/// The whole CSV text of a table: the header line, then one line per row.
pub open spec fn spec_csv(t: TableView) -> Seq<char> {
    spec_csv_line(t.headers, 0) + seq!['\n'] + spec_csv_rows(t.rows, 0)
}

/// Replaces line feeds in one cell by spaces.
fn sanitize_cell(c: &Vec<char>) -> (r: Vec<char>)
    ensures
        r@ == spec_sanitize_cell(c@),
{
    let mut r: Vec<char> = Vec::new();
    let mut i: usize = 0;
    proof {
        assert(r@ =~= spec_sanitize_cell(c@.take(0)));
    }
    while i < c.len()
        invariant
            0 <= i <= c@.len(),
            r@ == spec_sanitize_cell(c@.take(i as int)),
        decreases c@.len() - i,
    {
        let ch = c[i];
        r.push(
            if ch == '\n' {
                ' '
            } else {
                ch
            },
        );
        proof {
            assert(c@.take(i + 1) =~= c@.take(i as int).push(c@[i as int]));
            assert(r@ =~= spec_sanitize_cell(c@.take(i + 1)));
        }
        i = i + 1;
    }
    proof {
        assert(c@.take(c@.len() as int) =~= c@);
    }
    r
}

/// Joins cells with commas from index `from` on.
fn csv_line(cells: &Vec<Vec<char>>, from: usize) -> (r: Vec<char>)
    ensures
        r@ == spec_csv_line(cells@.map_values(|x: Vec<char>| x@), from as int),
{
    let ghost ls = cells@.map_values(|x: Vec<char>| x@);
    let mut out: Vec<char> = Vec::new();
    let mut k: usize = from;
    proof {
        assert(out@ + Seq::<char>::empty() + spec_csv_line(ls, from as int) =~= spec_csv_line(
            ls,
            from as int,
        ));
    }
    while k < cells.len()
        invariant
            from <= k,
            ls == cells@.map_values(|x: Vec<char>| x@),
            ls.len() == cells@.len(),
            spec_csv_line(ls, from as int) == out@ + (if from < k && k < cells@.len() {
                seq![',']
            } else {
                Seq::<char>::empty()
            }) + spec_csv_line(ls, k as int),
        decreases cells@.len() - k,
    {
        let ghost prev = out@;
        let ghost sep: Seq<char> = if k > from {
            seq![',']
        } else {
            Seq::empty()
        };
        if k > from {
            out.push(',');
        }
        push_all(&mut out, &cells[k]);
        proof {
            assert(ls[k as int] == cells@[k as int]@);
            assert(out@ =~= prev + sep + ls[k as int]);
            if k < ls.len() - 1 {
                assert(spec_csv_line(ls, k as int) == ls[k as int] + seq![','] + spec_csv_line(
                    ls,
                    k + 1,
                ));
                assert(prev + sep + (ls[k as int] + seq![','] + spec_csv_line(ls, k + 1)) =~= (prev
                    + sep + ls[k as int]) + seq![','] + spec_csv_line(ls, k + 1));
            } else {
                assert(spec_csv_line(ls, k as int) == ls[k as int]);
                assert(spec_csv_line(ls, k + 1) =~= Seq::<char>::empty());
                assert(prev + sep + ls[k as int] =~= (prev + sep + ls[k as int])
                    + Seq::<char>::empty() + Seq::<char>::empty());
            }
        }
        k = k + 1;
    }
    proof {
        assert(spec_csv_line(ls, k as int) =~= Seq::<char>::empty());
        assert(out@ + (if from < k && k < cells@.len() {
            seq![',']
        } else {
            Seq::<char>::empty()
        }) + Seq::<char>::empty() =~= out@);
    }
    out
}

/// Encodes a table as CSV text: the header cells comma-joined on the first
/// line, then each row sanitized, comma-joined and terminated by a line
/// feed.
pub fn csv_encode(table: &TableSpec) -> (r: String)
    ensures
        r@ == spec_csv(table@),
{
    let mut header_cells: Vec<Vec<char>> = Vec::new();
    let ghost hv = table@.headers;
    let mut i: usize = 0;
    proof {
        assert(header_cells@.map_values(|x: Vec<char>| x@) =~= hv.take(0));
    }
    while i < table.headers.len()
        invariant
            0 <= i <= table.headers@.len(),
            hv == table@.headers,
            hv.len() == table.headers@.len(),
            header_cells@.map_values(|x: Vec<char>| x@) == hv.take(i as int),
        decreases table.headers@.len() - i,
    {
        header_cells.push(chars_of(table.headers[i].as_str()));
        proof {
            assert(hv.take(i + 1) =~= hv.take(i as int).push(hv[i as int]));
            assert(header_cells@.map_values(|x: Vec<char>| x@) =~= hv.take(i + 1));
        }
        i = i + 1;
    }
    proof {
        assert(hv.take(hv.len() as int) =~= hv);
    }
    let mut out = csv_line(&header_cells, 0);
    out.push('\n');
    let ghost rv = table@.rows;
    let ghost base = out@;
    proof {
        assert(base =~= spec_csv_line(hv, 0) + seq!['\n']);
        assert(base + spec_csv_rows(rv, 0) =~= base + spec_csv_rows(rv, 0));
    }
    let mut k: usize = 0;
    while k < table.rows.len()
        invariant
            0 <= k <= table.rows@.len(),
            rv == table@.rows,
            rv.len() == table.rows@.len(),
            base == spec_csv_line(hv, 0) + seq!['\n'],
            hv == table@.headers,
            spec_csv(table@) == out@ + spec_csv_rows(rv, k as int),
        decreases table.rows@.len() - k,
    {
        let row = &table.rows[k];
        let ghost rowv = rv[k as int];
        let mut cells: Vec<Vec<char>> = Vec::new();
        let mut j: usize = 0;
        proof {
            assert(cells@.map_values(|x: Vec<char>| x@) =~= rowv.map_values(
                |c: Seq<char>| spec_sanitize_cell(c),
            ).take(0));
        }
        while j < row.len()
            invariant
                0 <= j <= row@.len(),
                rowv == rv[k as int],
                0 <= k < rv.len(),
                rv == table@.rows,
                rv.len() == table.rows@.len(),
                rowv == row@.map_values(|s: String| s@),
                rowv.len() == row@.len(),
                cells@.map_values(|x: Vec<char>| x@) == rowv.map_values(
                    |c: Seq<char>| spec_sanitize_cell(c),
                ).take(j as int),
            decreases row@.len() - j,
        {
            let cell_chars = chars_of(row[j].as_str());
            cells.push(sanitize_cell(&cell_chars));
            proof {
                let m = rowv.map_values(|c: Seq<char>| spec_sanitize_cell(c));
                assert(m.take(j + 1) =~= m.take(j as int).push(m[j as int]));
                assert(cells@.map_values(|x: Vec<char>| x@) =~= m.take(j + 1));
            }
            j = j + 1;
        }
        proof {
            let m = rowv.map_values(|c: Seq<char>| spec_sanitize_cell(c));
            assert(m.take(m.len() as int) =~= m);
        }
        let line = csv_line(&cells, 0);
        let ghost prev = out@;
        push_all(&mut out, &line);
        out.push('\n');
        proof {
            let m = rowv.map_values(|c: Seq<char>| spec_sanitize_cell(c));
            assert(spec_csv_rows(rv, k as int) == spec_csv_line(m, 0) + seq!['\n'] + spec_csv_rows(
                rv,
                k + 1,
            ));
            assert(out@ =~= prev + spec_csv_line(m, 0) + seq!['\n']);
            assert(prev + (spec_csv_line(m, 0) + seq!['\n'] + spec_csv_rows(rv, k + 1)) =~= (prev
                + spec_csv_line(m, 0) + seq!['\n']) + spec_csv_rows(rv, k + 1));
        }
        k = k + 1;
    }
    proof {
        assert(spec_csv_rows(rv, k as int) =~= Seq::<char>::empty());
        assert(out@ + Seq::<char>::empty() =~= out@);
    }
    string_of_chars(&out)
}

#[verifier::external_type_specification]
#[verifier::external_body]
pub struct ExXlsxError(rust_xlsxwriter::XlsxError);

/// Relies on rust_xlsxwriter's `Workbook`, `Worksheet::write_string` and
/// `Workbook::save_to_buffer`: encodes the headers as the first worksheet
/// row and each table row below it, returning the workbook bytes or the
/// writer's error.
#[verifier::external_body]
fn xlsx_encode(table: &TableSpec) -> Result<Vec<u8>, rust_xlsxwriter::XlsxError> {
    let mut wb = rust_xlsxwriter::Workbook::new();
    let ws = wb.add_worksheet();
    for (c, h) in table.headers.iter().enumerate() {
        ws.write_string(0, c as u16, h.as_str())?;
    }
    for (r, row) in table.rows.iter().enumerate() {
        for (c, val) in row.iter().enumerate() {
            ws.write_string((r as u32) + 1, c as u16, val.as_str())?;
        }
    }
    wb.save_to_buffer()
}

/// The base64 text of a byte sequence, as the STANDARD padded engine
/// produces it.
pub uninterp spec fn base64_of(b: Seq<u8>) -> Seq<char>;

/// Relies on base64's STANDARD engine `encode`: the deterministic padded
/// base64 text of the bytes, four characters for every started group of
/// three bytes.
#[verifier::external_body]
fn base64_encode(b: &Vec<u8>) -> (r: String)
    requires
        b@.len() <= 0x1000_0000_0000_0000,
    ensures
        r@ == base64_of(b@),
        r@.len() == 4 * ((b@.len() + 2) / 3),
{
    base64::Engine::encode(&base64::engine::general_purpose::STANDARD, b)
}

/// Relies on chrono's `Utc::now` and `DateTime::format` with
/// `%Y%m%d-%H%M%S`: the current UTC time as a compact (non-empty) stamp for
/// file names.
#[verifier::external_body]
fn now_stamp() -> (r: String)
    ensures
        r@.len() > 0,
{
    chrono::Utc::now().format("%Y%m%d-%H%M%S").to_string()
}

/// The UTF-8 bytes of a table's CSV text.
pub open spec fn spec_csv_bytes(t: TableView) -> Seq<u8> {
    vstd::utf8::encode_utf8(spec_csv(t))
}

/// The filename of a generated report: the fixed prefix, the stamp, and the
/// format extension.
pub open spec fn spec_report_filename(stamp: Seq<char>, ext: Seq<char>) -> Seq<char> {
    "report-"@ + stamp + "."@ + ext
}

/// The download path of a stored file.
pub open spec fn spec_download_url(id: Seq<char>) -> Seq<char> {
    "/api/files/"@ + id
}

/// The encoded bytes and mime type of a table in a format, where the format
/// name is case folded first: CSV bytes are the UTF-8 of the verified CSV
/// text; spreadsheet bytes come from the outside writer; any other format is
/// rejected as a validation error.
pub fn encode_table(fmt: &str, table: &TableSpec) -> (r: Result<(Vec<u8>, String), ChatError>)
    ensures
        spec_lower(fmt@) == "csv"@ ==> (r matches Ok(p) && p.0@ == spec_csv_bytes(table@)
            && p.1@ == "text/csv"@),
        spec_lower(fmt@) != "csv"@ && spec_lower(fmt@) != "xlsx"@ ==> r == Err::<
            (Vec<u8>, String),
            ChatError,
        >(ChatError::ValidationError),
        spec_lower(fmt@) == "xlsx"@ ==> (r matches Ok(p) ==> p.1@
            == "application/vnd.openxmlformats-officedocument.spreadsheetml.sheet"@),
        r matches Err(e) ==> (e == ChatError::ValidationError || e
            == ChatError::PersistenceFailure),
{
    proof {
        reveal_strlit("csv");
        reveal_strlit("xlsx");
        assert("csv"@.len() == 3);
        assert("xlsx"@.len() == 4);
        assert("csv"@ != "xlsx"@);
    }
    let fchars = chars_of(fmt);
    let flower = string_of_chars(&to_lower(&fchars));
    let csv_name: &str = "csv";
    let xlsx_name: &str = "xlsx";
    if str_eq(flower.as_str(), csv_name) {
        let text = csv_encode(table);
        let bytes = text.as_str().as_bytes_vec();
        let mime: &str = "text/csv";
        Ok((bytes, mime.to_owned()))
    } else if str_eq(flower.as_str(), xlsx_name) {
        match xlsx_encode(table) {
            Ok(bytes) => {
                let mime: &str = "application/vnd.openxmlformats-officedocument.spreadsheetml.sheet";
                Ok((bytes, mime.to_owned()))
            },
            Err(_) => Err(ChatError::PersistenceFailure),
        }
    } else {
        Err(ChatError::ValidationError)
    }
}

impl Store {
    /// Stores encoded file bytes as a file row and builds the attachment the
    /// client sees: small files (at most a mebibyte) carry an inline base64
    /// encoding, and every file gets a download path.
    pub fn store_file(
        &mut self,
        file_id: String,
        filename: String,
        mime: String,
        bytes: Vec<u8>,
        message_id: Option<&String>,
    ) -> (r: FileAttachment)
        ensures
            final(self)@ == (StoreView {
                files: old(self)@.files.push(
                    FileRowView {
                        id: file_id@,
                        filename: filename@,
                        mime: mime@,
                        size: bytes@.len(),
                        bytes: bytes@,
                        message_id: crate::manager::opt_ref_view(message_id),
                    },
                ),
                ..old(self)@
            }),
            r@.id == Some(file_id@),
            r@.filename == filename@,
            r@.mime == mime@,
            r@.size == bytes@.len(),
            r@.content_base64 == (if bytes@.len() <= 1048576 {
                Some(base64_of(bytes@))
            } else {
                None::<Seq<char>>
            }),
            r@.download_url == Some(spec_download_url(file_id@)),
            crate::store::store_wf(old(self)@) ==> crate::store::store_wf(final(self)@),
    {
        let size = bytes.len();
        let content_base64 = if size <= 1048576 {
            Some(base64_encode(&bytes))
        } else {
            None
        };
        let url_prefix: &str = "/api/files/";
        let mut url = url_prefix.to_owned();
        url.append(file_id.as_str());
        let row = FileRow {
            id: file_id.clone(),
            filename: filename.clone(),
            mime: mime.clone(),
            size,
            bytes,
            message_id: match message_id {
                Some(m) => Some(m.clone()),
                None => None,
            },
        };
        self.files.push(row);
        proof {
            assert(self@.files =~= old(self)@.files.push(
                FileRowView {
                    id: file_id@,
                    filename: filename@,
                    mime: mime@,
                    size: self@.files.last().size,
                    bytes: self@.files.last().bytes,
                    message_id: crate::manager::opt_ref_view(message_id),
                },
            ));
        }
        FileAttachment {
            id: Some(file_id),
            filename,
            mime,
            size,
            content_base64,
            download_url: Some(url),
        }
    }

    /// Generates a file for a table directive and stores it: the table is
    /// encoded in the requested format, saved under a fresh id with a
    /// stamped report filename, and returned as the attachment of the stored
    /// row. An unsupported format or a writer failure is reported as an
    /// error and stores nothing.
    pub fn generate_file_and_store(
        &mut self,
        fmt: &str,
        table: &TableSpec,
        message_id: Option<&String>,
    ) -> (r: Result<FileAttachment, ChatError>)
        ensures
            r matches Ok(a) ==> {
                &&& final(self)@.files.len() == old(self)@.files.len() + 1
                &&& final(self)@ == (StoreView {
                    files: old(self)@.files.push(final(self)@.files.last()),
                    ..old(self)@
                })
                &&& a@ == spec_attachment_of(final(self)@.files.last())
                &&& final(self)@.files.last().bytes.len() == a@.size
                &&& final(self)@.files.last().message_id == crate::manager::opt_ref_view(
                    message_id,
                )
                &&& exists|st: Seq<char>|
                    st.len() > 0 && #[trigger] spec_report_filename(st, spec_lower(fmt@))
                        == a@.filename
                &&& (spec_lower(fmt@) == "csv"@ ==> final(self)@.files.last().bytes
                    == spec_csv_bytes(table@) && a@.mime == "text/csv"@)
                &&& (spec_lower(fmt@) == "xlsx"@ ==> a@.mime
                    == "application/vnd.openxmlformats-officedocument.spreadsheetml.sheet"@)
            },
            r matches Err(e) ==> final(self)@ == old(self)@ && (e == ChatError::ValidationError
                || e == ChatError::PersistenceFailure),
            spec_lower(fmt@) == "csv"@ ==> r is Ok,
            spec_lower(fmt@) != "csv"@ && spec_lower(fmt@) != "xlsx"@ ==> r == Err::<
                FileAttachment,
                ChatError,
            >(ChatError::ValidationError),
            crate::store::store_wf(old(self)@) ==> crate::store::store_wf(final(self)@),
    {
        match encode_table(fmt, table) {
            Ok((bytes, mime)) => {
                let stamp = now_stamp();
                let fchars = chars_of(fmt);
                let flower = string_of_chars(&to_lower(&fchars));
                let prefix: &str = "report-";
                let dot: &str = ".";
                let mut filename = prefix.to_owned();
                filename.append(stamp.as_str());
                filename.append(dot);
                filename.append(flower.as_str());
                let ghost stamp_v = stamp@;
                let ghost fname_v = filename@;
                proof {
                    assert(fname_v == spec_report_filename(stamp_v, spec_lower(fmt@)));
                }
                let id = crate::manager::fresh_uuid();
                let att = self.store_file(id, filename, mime, bytes, message_id);
                proof {
                    assert(att@ == spec_attachment_of(self@.files.last()));
                    assert(att@.filename == spec_report_filename(stamp_v, spec_lower(fmt@)));
                }
                Ok(att)
            },
            Err(e) => Err(e),
        }
    }
}

/// The client-facing attachment of one stored file row: its metadata, an
/// inline base64 encoding when it holds at most a mebibyte, and its
/// download path.
pub open spec fn spec_attachment_of(f: FileRowView) -> FileAttachmentView {
    FileAttachmentView {
        id: Some(f.id),
        filename: f.filename,
        mime: f.mime,
        size: f.size,
        content_base64: if f.bytes.len() <= 1048576 {
            Some(base64_of(f.bytes))
        } else {
            None
        },
        download_url: Some(spec_download_url(f.id)),
    }
}

/// The attachments of one message: its stored files, in stored order.
pub open spec fn spec_attachments_for(files: Seq<FileRowView>, mid: Seq<char>) -> Seq<
    FileAttachmentView,
> {
    files.filter(|f: FileRowView| f.message_id == Some(mid)).map_values(
        |f: FileRowView| spec_attachment_of(f),
    )
}

impl Store {
    /// Lists the attachments stored for one message, small files carrying
    /// their inline base64 encoding.
    pub fn attachments_for_message(&self, message_id: &str) -> (r: Vec<FileAttachment>)
        ensures
            r@.map_values(|a: FileAttachment| a@) == spec_attachments_for(
                self@.files,
                message_id@,
            ),
    {
        let ghost fv = self@.files;
        let ghost pred = |f: FileRowView| f.message_id == Some(message_id@);
        let ghost toa = |f: FileRowView| spec_attachment_of(f);
        let mut r: Vec<FileAttachment> = Vec::new();
        let mut i: usize = 0;
        proof {
            reveal(Seq::filter);
            assert(fv.take(0) =~= Seq::<FileRowView>::empty());
            assert(r@.map_values(|a: FileAttachment| a@) =~= fv.take(0).filter(pred).map_values(
                toa,
            ));
        }
        while i < self.files.len()
            invariant
                0 <= i <= self.files@.len(),
                fv == self@.files,
                fv.len() == self.files@.len(),
                pred == (|f: FileRowView| f.message_id == Some(message_id@)),
                toa == (|f: FileRowView| spec_attachment_of(f)),
                r@.map_values(|a: FileAttachment| a@) == fv.take(i as int).filter(pred).map_values(
                    toa,
                ),
            decreases self.files@.len() - i,
        {
            let ghost prev = r@.map_values(|a: FileAttachment| a@);
            let f = &self.files[i];
            let matched = match &f.message_id {
                Some(m) => str_eq(m.as_str(), message_id),
                None => false,
            };
            if matched {
                let content_base64 = if f.bytes.len() <= 1048576 {
                    Some(base64_encode(&f.bytes))
                } else {
                    None
                };
                let url_prefix: &str = "/api/files/";
                let mut url = url_prefix.to_owned();
                url.append(f.id.as_str());
                r.push(
                    FileAttachment {
                        id: Some(f.id.clone()),
                        filename: f.filename.clone(),
                        mime: f.mime.clone(),
                        size: f.size,
                        content_base64,
                        download_url: Some(url),
                    },
                );
            }
            proof {
                reveal(Seq::filter);
                assert(fv.take(i + 1).drop_last() =~= fv.take(i as int));
                assert(fv.take(i + 1).last() == fv[i as int]);
                if matched {
                    assert(fv.take(i + 1).filter(pred) =~= fv.take(i as int).filter(pred).push(
                        fv[i as int],
                    ));
                    assert(r@.map_values(|a: FileAttachment| a@) =~= prev.push(toa(fv[i as int])));
                    assert(fv.take(i + 1).filter(pred).map_values(toa) =~= fv.take(
                        i as int,
                    ).filter(pred).map_values(toa).push(toa(fv[i as int])));
                } else {
                    assert(fv.take(i + 1).filter(pred) =~= fv.take(i as int).filter(pred));
                    assert(r@.map_values(|a: FileAttachment| a@) =~= prev);
                }
            }
            i = i + 1;
        }
        proof {
            assert(fv.take(fv.len() as int) =~= fv);
        }
        r
    }
}

} // verus!
