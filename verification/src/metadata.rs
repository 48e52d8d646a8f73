//! Metadata of a download request: the records that the fetch tool prints,
//! one line per item, and what is derived from them.

use crate::text::{
    copy_range, decimal_u64, file_name_of, is_space, lemma_file_name_of_joined, parse_u64, split,
    split_of, to_chars, to_text, trim_bounds, trim_start, trimmed, views,
};
use vstd::prelude::*;
use vstd::utf8::{decode_utf8, valid_utf8};

verus! {

/// What a caller asks for: one item or playlist, fetched into a folder.
#[derive(Clone, Debug)]
pub struct DownloadParameters {
    pub id: String,
    pub download_folder: String,
    pub format: String,
    pub resolution: String,
    pub link: String,
}

/// One media item, as the tool describes it.
#[derive(Clone, Debug)]
pub struct DownloadItemMetadata {
    pub title: String,
    pub thumbnail: String,
    pub duration: String,
    pub resolution: String,
    /// Approximate size in bytes; 0 where the tool gave no number.
    pub file_size: u64,
    pub link: String,
}

/// Everything known of a request before its files are fetched.
#[derive(Clone, Debug)]
pub struct DownloadMetadata {
    pub id: String,
    pub download_path: String,
    /// Sum of the items' sizes, in bytes.
    pub file_size: u128,
    pub is_playlist: bool,
    pub playlist_title: Option<String>,
    pub playlist_count: Option<usize>,
    pub items: Vec<DownloadItemMetadata>,
}

/// What the host decides of a destination path.
#[derive(Clone, Copy, Debug, PartialEq, Eq, Structural)]
pub struct Platform {
    /// Stands between a folder and a name in a path.
    pub separator: char,
    /// Whether file names follow the rules of Windows: no reserved device
    /// name, no dot or space at the end.
    pub windows_names: bool,
}

/// Why no metadata could be derived from the tool's output.
#[derive(Clone, Copy, Debug, PartialEq, Eq, Structural)]
pub enum MetadataError {
    /// The output holds nothing but white space.
    Empty,
    /// The output is not UTF-8 text.
    InvalidEncoding,
    /// A record has the wrong number of fields, or a playlist's item count
    /// is no number.
    Malformed,
}

/// Mathematical model of a `DownloadItemMetadata`.
pub struct ItemModel {
    pub title: Seq<char>,
    pub thumbnail: Seq<char>,
    pub duration: Seq<char>,
    pub resolution: Seq<char>,
    pub file_size: u64,
    pub link: Seq<char>,
}

/// Mathematical model of a `DownloadMetadata`.
pub struct MetadataModel {
    pub id: Seq<char>,
    pub download_path: Seq<char>,
    pub file_size: nat,
    pub is_playlist: bool,
    pub playlist_title: Option<Seq<char>>,
    pub playlist_count: Option<usize>,
    pub items: Seq<ItemModel>,
}

impl View for DownloadItemMetadata {
    type V = ItemModel;

    open spec fn view(&self) -> ItemModel {
        ItemModel {
            title: self.title@,
            thumbnail: self.thumbnail@,
            duration: self.duration@,
            resolution: self.resolution@,
            file_size: self.file_size,
            link: self.link@,
        }
    }
}

/// The models of a sequence of items.
pub open spec fn item_models(items: Seq<DownloadItemMetadata>) -> Seq<ItemModel> {
    items.map_values(|i: DownloadItemMetadata| i@)
}

impl View for DownloadMetadata {
    type V = MetadataModel;

    open spec fn view(&self) -> MetadataModel {
        MetadataModel {
            id: self.id@,
            download_path: self.download_path@,
            file_size: self.file_size as nat,
            is_playlist: self.is_playlist,
            playlist_title: match self.playlist_title {
                Some(t) => Some(t@),
                None => None,
            },
            playlist_count: self.playlist_count,
            items: item_models(self.items@),
        }
    }
}

impl MetadataModel {
    /// The invariant of metadata: there is at least one item, the playlist
    /// flag says whether there are several, the playlist's title and count
    /// are present exactly for a playlist, and the total is the sum of the
    /// items' sizes.
    pub open spec fn well_formed(self) -> bool {
        &&& self.items.len() >= 1
        &&& self.is_playlist <==> self.items.len() > 1
        &&& self.playlist_title is Some <==> self.is_playlist
        &&& self.playlist_count is Some <==> self.is_playlist
        &&& self.file_size == total_size(self.items)
    }
}

/// Number of fields in one record.
pub const FIELD_COUNT: usize = 10;

/// The text that separates the fields of a record: `[|]`.
pub open spec fn field_delimiter() -> Seq<char> {
    seq!['[', '|', ']']
}

/// The text that separates records: a line feed.
pub open spec fn line_delimiter() -> Seq<char> {
    seq!['\n']
}

/// The fields of one line.
pub open spec fn record_of(line: Seq<char>) -> Seq<Seq<char>> {
    split_of(line, field_delimiter())
}

/// The records of the tool's output: its lines, white space at the ends of
/// the output left aside, each cut into fields.
pub open spec fn records_of(text: Seq<char>) -> Seq<Seq<Seq<char>>> {
    split_of(trimmed(text), line_delimiter()).map_values(|l: Seq<char>| record_of(l))
}

/// Every record has exactly the fields of the schema.
pub open spec fn all_complete(records: Seq<Seq<Seq<char>>>) -> bool {
    forall|i: int| 0 <= i < records.len() ==> (#[trigger] records[i]).len() == FIELD_COUNT
}

/// The size that a size field states: its decimal value, or 0 where it is
/// no number.
pub open spec fn size_of(field: Seq<char>) -> u64 {
    match decimal_u64(field) {
        Some(v) => v,
        None => 0,
    }
}

/// The item count that a field states, where it is a number that fits.
pub open spec fn playlist_count_of(field: Seq<char>) -> Option<usize> {
    match decimal_u64(field) {
        Some(v) => if v <= usize::MAX {
            Some(v as usize)
        } else {
            None
        },
        None => None,
    }
}

/// The item that a complete record describes.
pub open spec fn item_of(record: Seq<Seq<char>>) -> ItemModel {
    ItemModel {
        title: record[0],
        thumbnail: record[1],
        duration: record[2],
        resolution: record[3],
        file_size: size_of(record[4]),
        link: record[9],
    }
}

/// The sum of the items' sizes.
pub open spec fn total_size(items: Seq<ItemModel>) -> nat
    decreases items.len(),
{
    if items.len() == 0 {
        0
    } else {
        total_size(items.drop_last()) + items.last().file_size as nat
    }
}

/// What `sanitize_filename::sanitize_with_options` makes of a file name,
/// with or without the rules for Windows names, and the crate's other
/// options as it sets them itself.
pub uninterp spec fn sanitized(name: Seq<char>, windows: bool) -> Seq<char>;

/// A character that no sanitized file name holds: a path separator, one of
/// `? < > : * | "`, or a control character below U+0020 or from U+0080 to
/// U+009F.
pub open spec fn is_forbidden(c: char) -> bool {
    let u = c as u32;
    c == '/' || c == '\\' || c == '?' || c == '<' || c == '>' || c == ':' || c == '*' || c == '|'
        || c == '"' || u <= 0x1f || (0x80 <= u <= 0x9f)
}

/// No character of `name` is forbidden.
pub open spec fn is_clean(name: Seq<char>) -> bool {
    forall|i: int| 0 <= i < name.len() ==> !is_forbidden(#[trigger] name[i])
}

/// The last component of the path holds no forbidden character, where the
/// separator itself is one.
pub open spec fn has_clean_name(path: Seq<char>, separator: char) -> bool {
    is_forbidden(separator) ==> is_clean(file_name_of(path, separator))
}

/// The name of the destination that complete records give: the first
/// record's folder name for a playlist, its file name otherwise, sanitized.
pub open spec fn destination_name(records: Seq<Seq<Seq<char>>>, windows: bool) -> Seq<char> {
    sanitized(
        if records.len() > 1 {
            records[0][8]
        } else {
            records[0][5]
        },
        windows,
    )
}

/// Calls `sanitize_filename::sanitize_with_options`, with the rules for
/// Windows names as asked and the crate's defaults otherwise. The result
/// is a function of the two arguments alone; the crate removes every
/// forbidden character from the name before it shortens it, so none is left
/// in the result.
#[verifier::external_body]
fn sanitize_name(name: &str, windows: bool) -> (r: String)
    ensures
        r@ == sanitized(name@, windows),
        is_clean(r@),
{
    let options = sanitize_filename::Options { windows, ..Default::default() };
    sanitize_filename::sanitize_with_options(name, options)
}

/// Calls `std::str::from_utf8`: the text that the bytes encode, where they
/// are valid UTF-8.
#[verifier::external_body]
fn utf8_text(bytes: &[u8]) -> (r: Option<&str>)
    ensures
        r is Some <==> valid_utf8(bytes@),
        r is Some ==> r.unwrap()@ == decode_utf8(bytes@),
{
    match std::str::from_utf8(bytes) {
        Ok(s) => Some(s),
        Err(_) => None,
    }
}

/// The metadata that complete records give: one item per record; several
/// records make a playlist, named and counted by the first record.
pub open spec fn assemble(
    id: Seq<char>,
    folder: Seq<char>,
    host: Platform,
    records: Seq<Seq<Seq<char>>>,
) -> Result<MetadataModel, MetadataError> {
    let playlist = records.len() > 1;
    let first = records[0];
    let items = records.map_values(|r: Seq<Seq<char>>| item_of(r));
    if playlist && playlist_count_of(first[6]) is None {
        Err(MetadataError::Malformed)
    } else {
        Ok(
            MetadataModel {
                id,
                download_path: folder + seq![host.separator] + destination_name(
                    records,
                    host.windows_names,
                ),
                file_size: total_size(items),
                is_playlist: playlist,
                playlist_title: if playlist {
                    Some(first[7])
                } else {
                    None
                },
                playlist_count: if playlist {
                    playlist_count_of(first[6])
                } else {
                    None
                },
                items,
            },
        )
    }
}

/// The metadata that the tool's output `text` describes for the request
/// `id` into `folder`, or the reason why it describes none.
pub open spec fn metadata_of(
    id: Seq<char>,
    folder: Seq<char>,
    host: Platform,
    text: Seq<char>,
) -> Result<MetadataModel, MetadataError> {
    let records = records_of(text);
    if trimmed(text).len() == 0 {
        Err(MetadataError::Empty)
    } else if !all_complete(records) {
        Err(MetadataError::Malformed)
    } else {
        assemble(id, folder, host, records)
    }
}

/// The metadata that the captured bytes describe.
pub open spec fn metadata_of_bytes(
    id: Seq<char>,
    folder: Seq<char>,
    host: Platform,
    output: Seq<u8>,
) -> Result<MetadataModel, MetadataError> {
    if valid_utf8(output) {
        metadata_of(id, folder, host, decode_utf8(output))
    } else {
        Err(MetadataError::InvalidEncoding)
    }
}

/// Whether `result` is what the model `expected` says.
pub open spec fn agrees(
    result: Result<DownloadMetadata, MetadataError>,
    expected: Result<MetadataModel, MetadataError>,
) -> bool {
    match result {
        Ok(m) => expected == Ok::<MetadataModel, MetadataError>(m@),
        Err(e) => expected == Err::<MetadataModel, MetadataError>(e),
    }
}

fn field_delimiter_chars() -> (d: Vec<char>)
    ensures
        d@ == field_delimiter(),
{
    let mut d: Vec<char> = Vec::new();
    d.push('[');
    d.push('|');
    d.push(']');
    proof {
        assert(d@ =~= field_delimiter());
    }
    d
}

fn line_delimiter_chars() -> (d: Vec<char>)
    ensures
        d@ == line_delimiter(),
{
    let mut d: Vec<char> = Vec::new();
    d.push('\n');
    proof {
        assert(d@ =~= line_delimiter());
    }
    d
}

/// The size that a size field states.
pub fn parse_size(field: &[char]) -> (r: u64)
    ensures
        r == size_of(field@),
{
    match parse_u64(field) {
        Some(v) => v,
        None => 0,
    }
}

/// The item count that a field states.
pub fn parse_count(field: &[char]) -> (r: Option<usize>)
    ensures
        r == playlist_count_of(field@),
{
    match parse_u64(field) {
        Some(v) => if v <= usize::MAX as u64 {
            Some(v as usize)
        } else {
            None
        },
        None => None,
    }
}

fn item_from(fields: &Vec<Vec<char>>) -> (item: DownloadItemMetadata)
    requires
        fields@.len() == FIELD_COUNT,
    ensures
        item@ == item_of(views(fields@)),
{
    DownloadItemMetadata {
        title: to_text(fields[0].as_slice()),
        thumbnail: to_text(fields[1].as_slice()),
        duration: to_text(fields[2].as_slice()),
        resolution: to_text(fields[3].as_slice()),
        file_size: parse_size(fields[4].as_slice()),
        link: to_text(fields[9].as_slice()),
    }
}

/// Derives the items of the records `lines`, and the sum of their sizes.
/// Fails where a line has not exactly the fields of the schema.
fn collect_items(lines: &Vec<Vec<char>>) -> (r: Option<(Vec<DownloadItemMetadata>, u128)>)
    ensures
        match r {
            Some((items, total)) => {
                &&& all_complete(views(lines@).map_values(|l: Seq<char>| record_of(l)))
                &&& item_models(items@) == views(lines@).map_values(
                    |l: Seq<char>| record_of(l),
                ).map_values(|r: Seq<Seq<char>>| item_of(r))
                &&& total as nat == total_size(item_models(items@))
            },
            None => !all_complete(views(lines@).map_values(|l: Seq<char>| record_of(l))),
        },
{
    let delimiter = field_delimiter_chars();
    let ghost records = views(lines@).map_values(|l: Seq<char>| record_of(l));
    let ghost wanted = records.map_values(|r: Seq<Seq<char>>| item_of(r));
    let mut items: Vec<DownloadItemMetadata> = Vec::new();
    let mut total: u128 = 0;
    let mut k: usize = 0;
    proof {
        assert(item_models(items@) =~= wanted.subrange(0, 0));
    }
    while k < lines.len()
        invariant
            k <= lines.len(),
            delimiter@ == field_delimiter(),
            records == views(lines@).map_values(|l: Seq<char>| record_of(l)),
            wanted == records.map_values(|r: Seq<Seq<char>>| item_of(r)),
            forall|j: int| 0 <= j < k ==> (#[trigger] records[j]).len() == FIELD_COUNT,
            item_models(items@) == wanted.subrange(0, k as int),
            total as nat == total_size(item_models(items@)),
            total as int <= k as int * 0xffff_ffff_ffff_ffff,
        decreases lines.len() - k,
    {
        let fields = split(lines[k].as_slice(), delimiter.as_slice());
        proof {
            assert(views(fields@) == records[k as int]);
        }
        if fields.len() != FIELD_COUNT {
            return None;
        }
        let item = item_from(&fields);
        let ghost before = item_models(items@);
        total = total + item.file_size as u128;
        items.push(item);
        proof {
            assert(item_models(items@) =~= before.push(item@));
            assert(item_models(items@).drop_last() =~= before);
            assert(item_models(items@) =~= wanted.subrange(0, k + 1));
        }
        k += 1;
    }
    proof {
        assert(wanted.subrange(0, k as int) =~= wanted);
    }
    Some((items, total))
}

/// Derives the metadata of a request from the text that the tool printed
/// for it: one record per line, ten fields per record. `host.separator` stands
/// between the folder and the file name in the destination path.
pub fn parse_metadata(params: &DownloadParameters, host: Platform, text: &str) -> (r: Result<
    DownloadMetadata,
    MetadataError,
>)
    ensures
        agrees(r, metadata_of(params.id@, params.download_folder@, host, text@)),
        r is Ok ==> r.unwrap()@.well_formed(),
        r is Ok ==> is_clean(destination_name(records_of(text@), host.windows_names)),
        r is Ok ==> has_clean_name(r.unwrap()@.download_path, host.separator),
{
    let chars = to_chars(text);
    let (lo, hi) = trim_bounds(chars.as_slice());
    if lo == hi {
        return Err(MetadataError::Empty);
    }
    let body = copy_range(chars.as_slice(), lo, hi);
    let line_end = line_delimiter_chars();
    let lines = split(body.as_slice(), line_end.as_slice());
    let ghost records = records_of(text@);
    proof {
        assert(records == views(lines@).map_values(|l: Seq<char>| record_of(l)));
    }
    let (items, total) = match collect_items(&lines) {
        Some(found) => found,
        None => {
            return Err(MetadataError::Malformed);
        },
    };
    let is_playlist = lines.len() > 1;
    let delimiter = field_delimiter_chars();
    let first = split(lines[0].as_slice(), delimiter.as_slice());
    proof {
        assert(views(first@) == records[0]);
        assert(records[0].len() == FIELD_COUNT);
        assert(item_models(items@).len() == records.len());
    }
    let mut playlist_title: Option<String> = None;
    let mut playlist_count: Option<usize> = None;
    if is_playlist {
        playlist_count = parse_count(first[6].as_slice());
        if playlist_count.is_none() {
            return Err(MetadataError::Malformed);
        }
        playlist_title = Some(to_text(first[7].as_slice()));
    }
    let raw_name = if is_playlist {
        to_text(first[8].as_slice())
    } else {
        to_text(first[5].as_slice())
    };
    let name = sanitize_name(raw_name.as_str(), host.windows_names);
    let mut download_path = params.download_folder.clone();
    download_path.push(host.separator);
    download_path.append(name.as_str());
    proof {
        assert(download_path@ =~= params.download_folder@ + seq![host.separator] + name@);
        if is_forbidden(host.separator) {
            lemma_file_name_of_joined(params.download_folder@, host.separator, name@);
        }
    }
    Ok(
        DownloadMetadata {
            id: params.id.clone(),
            download_path,
            file_size: total,
            is_playlist,
            playlist_title,
            playlist_count,
            items,
        },
    )
}

/// Derives the metadata of a request from the bytes that the tool wrote to
/// its standard output.
pub fn metadata_from_output(params: &DownloadParameters, host: Platform, output: &[u8]) -> (r:
    Result<DownloadMetadata, MetadataError>)
    ensures
        agrees(r, metadata_of_bytes(params.id@, params.download_folder@, host, output@)),
        r is Ok ==> r.unwrap()@.well_formed(),
        r is Ok ==> is_clean(
            destination_name(records_of(decode_utf8(output@)), host.windows_names),
        ),
        r is Ok ==> has_clean_name(r.unwrap()@.download_path, host.separator),
{
    match utf8_text(output) {
        Some(text) => parse_metadata(params, host, text),
        None => Err(MetadataError::InvalidEncoding),
    }
}

/// Metadata that is derived is well formed: several items exactly for a
/// playlist, the playlist's title and count present exactly for a playlist,
/// the total the sum of the items' sizes, and never without an item.
pub proof fn lemma_metadata_well_formed(
    id: Seq<char>,
    folder: Seq<char>,
    host: Platform,
    text: Seq<char>,
)
    ensures
        metadata_of(id, folder, host, text) is Ok ==> metadata_of(
            id,
            folder,
            host,
            text,
        ).unwrap().well_formed(),
{
    crate::text::lemma_split_nonempty(trimmed(text), line_delimiter(), 0);
}

/// Where the separator is a forbidden character and the sanitized name is
/// clean, as every name is that was sanitized, the last component of the
/// destination path is the sanitized name.
pub proof fn lemma_destination_file_name(
    id: Seq<char>,
    folder: Seq<char>,
    host: Platform,
    text: Seq<char>,
)
    requires
        metadata_of(id, folder, host, text) is Ok,
        is_forbidden(host.separator),
        is_clean(destination_name(records_of(text), host.windows_names)),
    ensures
        file_name_of(metadata_of(id, folder, host, text).unwrap().download_path, host.separator)
            == destination_name(records_of(text), host.windows_names),
{
    lemma_file_name_of_joined(
        folder,
        host.separator,
        destination_name(records_of(text), host.windows_names),
    );
}

/// Each item's size is the number that its record's size field writes, or 0
/// where that field is no number.
pub proof fn lemma_item_sizes(
    id: Seq<char>,
    folder: Seq<char>,
    host: Platform,
    text: Seq<char>,
    i: int,
)
    requires
        metadata_of(id, folder, host, text) is Ok,
        0 <= i < records_of(text).len(),
    ensures
        metadata_of(id, folder, host, text).unwrap().items.len() == records_of(text).len(),
        metadata_of(id, folder, host, text).unwrap().items[i].file_size == size_of(
            records_of(text)[i][4],
        ),
{
}

/// Trimming a text of white space alone leaves nothing.
pub proof fn lemma_blank_trims_to_nothing(text: Seq<char>)
    requires
        forall|i: int| 0 <= i < text.len() ==> is_space(#[trigger] text[i]),
    ensures
        trimmed(text).len() == 0,
    decreases text.len(),
{
    if text.len() > 0 {
        assert(is_space(text[0]));
        let rest = text.drop_first();
        assert forall|i: int| 0 <= i < rest.len() implies is_space(#[trigger] rest[i]) by {
            assert(rest[i] == text[i + 1]);
        }
        lemma_blank_trims_to_nothing(rest);
        assert(trim_start(text) == trim_start(rest));
    }
}

/// Output that is empty or white space alone describes no metadata: the
/// outcome is the error `Empty`.
pub proof fn lemma_blank_output_is_empty(
    id: Seq<char>,
    folder: Seq<char>,
    host: Platform,
    text: Seq<char>,
)
    requires
        forall|i: int| 0 <= i < text.len() ==> is_space(#[trigger] text[i]),
    ensures
        metadata_of(id, folder, host, text) == Err::<MetadataModel, MetadataError>(
            MetadataError::Empty,
        ),
{
    lemma_blank_trims_to_nothing(text);
}

} // verus!
