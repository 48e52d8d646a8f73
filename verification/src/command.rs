//! The command lines of the two runs of the fetch tool, and the plan of a
//! download once its metadata is known.

use crate::metadata::{
    destination_name, has_clean_name, is_clean, metadata_from_output, metadata_of_bytes,
    records_of, DownloadMetadata, DownloadParameters, MetadataError, MetadataModel, Platform,
};
use crate::progress::initial_progress;
use crate::session::{DownloadProcess, Phase, SessionModel};
use vstd::prelude::*;
use vstd::utf8::decode_utf8;

verus! {

/// Why a request cannot be carried out.
#[derive(Clone, Copy, Debug, PartialEq, Eq, Structural)]
pub enum DownloadError {
    /// The requested format is none of `mp4`, `m4a`, `mp3`.
    UnsupportedFormat,
    /// The tool's output gave no metadata.
    Metadata(MetadataError),
}

/// The texts of a list of strings.
pub open spec fn texts(v: Seq<String>) -> Seq<Seq<char>> {
    v.map_values(|s: String| s@)
}

/// The arguments that select the format: for `mp4` the best video up to
/// the requested height with the best audio, merged into that container;
/// for `m4a` that audio format as it is; for `mp3` the audio, converted.
/// `None` for every other format.
pub open spec fn format_arguments(format: Seq<char>, resolution: Seq<char>) -> Option<
    Seq<Seq<char>>,
> {
    if format == "mp4"@ {
        Some(seq!["-f"@, "bv[height<="@ + resolution + "]+ba"@, "--merge-output-format"@, format])
    } else if format == "m4a"@ {
        Some(seq!["-f"@, format])
    } else if format == "mp3"@ {
        Some(seq!["-x"@, "--audio-format"@, "mp3"@])
    } else {
        None
    }
}

/// The template of the path of a single item's file.
pub open spec fn item_path_template(id: Seq<char>) -> Seq<char> {
    "%(title)s_%(epoch>%Y%m%d_%H_%M_%p)s_"@ + id + ".%(ext)s"@
}

/// The template of the name of a playlist's folder.
pub open spec fn playlist_folder_template(id: Seq<char>) -> Seq<char> {
    "%(playlist_title)s_%(epoch>%Y%m%d_%H_%M_%p)s_"@ + id
}

/// The template of one record: ten fields with `[|]` between them.
pub open spec fn record_template(id: Seq<char>) -> Seq<char> {
    "%(title)s[|]%(thumbnail)s[|]%(duration_string)s[|]%(resolution)s[|]%(filesize_approx)s[|]"@
        + item_path_template(id) + "[|]%(playlist_count)s[|]%(playlist_title)s[|]"@
        + playlist_folder_template(id) + "[|]%(webpage_url)s"@
}

/// The arguments of the run that asks for metadata.
pub open spec fn metadata_arguments_of(
    id: Seq<char>,
    format: Seq<char>,
    resolution: Seq<char>,
    link: Seq<char>,
) -> Option<Seq<Seq<char>>> {
    match format_arguments(format, resolution) {
        Some(selection) => Some(
            seq![link, "--no-playlist"@] + selection + seq!["--print"@, record_template(id)],
        ),
        None => None,
    }
}

/// Where the fetched files go: a playlist's items under its folder, by
/// title; a single item at the destination path itself.
pub open spec fn output_template(is_playlist: bool, download_path: Seq<char>) -> Seq<char> {
    if is_playlist {
        download_path + "/%(title)s.%(ext)s"@
    } else {
        download_path
    }
}

/// The arguments of the run that fetches the files.
pub open spec fn fetch_arguments_of(
    format: Seq<char>,
    resolution: Seq<char>,
    link: Seq<char>,
    is_playlist: bool,
    download_path: Seq<char>,
) -> Option<Seq<Seq<char>>> {
    match format_arguments(format, resolution) {
        Some(selection) => Some(
            seq![link, "--no-playlist"@] + selection + seq![
                "--no-part"@,
                "-o"@,
                output_template(is_playlist, download_path),
                "--newline"@,
            ],
        ),
        None => None,
    }
}

fn push_text(args: &mut Vec<String>, text: String)
    ensures
        texts(final(args)@) == texts(old(args)@).push(text@),
{
    args.push(text);
    proof {
        assert(texts(args@) =~= texts(old(args)@).push(text@));
    }
}

fn same_text(a: &String, b: &str) -> (r: bool)
    ensures
        r == (a@ == b@),
{
    let other = b.to_owned();
    *a == other
}

/// What a finished metadata run leads to: the metadata to publish, the
/// arguments of the fetching run, and the session that follows it.
#[derive(Debug)]
pub struct DownloadPlan {
    pub metadata: DownloadMetadata,
    pub arguments: Vec<String>,
    pub process: DownloadProcess,
}

impl DownloadProcess {
    /// Appends the arguments that select the requested format. An
    /// unsupported format is refused and leaves the command as it was.
    pub fn assign_parameters_to_command(
        command: &mut Vec<String>,
        download_parameters: &DownloadParameters,
    ) -> (r: Result<(), DownloadError>)
        ensures
            match format_arguments(download_parameters.format@, download_parameters.resolution@) {
                Some(selection) => r == Ok::<(), DownloadError>(()) && texts(final(command)@)
                    == texts(old(command)@) + selection,
                None => r == Err::<(), DownloadError>(DownloadError::UnsupportedFormat)
                    && final(command)@ == old(command)@,
            },
    {
        let ghost before = texts(command@);
        if same_text(&download_parameters.format, "mp4") {
            let mut selector = "bv[height<=".to_owned();
            selector.append(download_parameters.resolution.as_str());
            selector.append("]+ba");
            push_text(command, "-f".to_owned());
            push_text(command, selector);
            push_text(command, "--merge-output-format".to_owned());
            push_text(command, download_parameters.format.clone());
            proof {
                assert(texts(command@) =~= before + format_arguments(
                    download_parameters.format@,
                    download_parameters.resolution@,
                ).unwrap());
            }
            Ok(())
        } else if same_text(&download_parameters.format, "m4a") {
            push_text(command, "-f".to_owned());
            push_text(command, download_parameters.format.clone());
            proof {
                assert(texts(command@) =~= before + format_arguments(
                    download_parameters.format@,
                    download_parameters.resolution@,
                ).unwrap());
            }
            Ok(())
        } else if same_text(&download_parameters.format, "mp3") {
            push_text(command, "-x".to_owned());
            push_text(command, "--audio-format".to_owned());
            push_text(command, "mp3".to_owned());
            proof {
                assert(texts(command@) =~= before + format_arguments(
                    download_parameters.format@,
                    download_parameters.resolution@,
                ).unwrap());
            }
            Ok(())
        } else {
            Err(DownloadError::UnsupportedFormat)
        }
    }

    /// The arguments of the run that asks the tool for metadata.
    pub fn metadata_arguments(download_parameters: &DownloadParameters) -> (r: Result<
        Vec<String>,
        DownloadError,
    >)
        ensures
            match metadata_arguments_of(
                download_parameters.id@,
                download_parameters.format@,
                download_parameters.resolution@,
                download_parameters.link@,
            ) {
                Some(arguments) => r is Ok && texts(r.unwrap()@) == arguments,
                None => r == Err::<Vec<String>, DownloadError>(DownloadError::UnsupportedFormat),
            },
    {
        let mut command: Vec<String> = Vec::new();
        push_text(&mut command, download_parameters.link.clone());
        push_text(&mut command, "--no-playlist".to_owned());
        let ghost head = texts(command@);
        proof {
            assert(head =~= seq![download_parameters.link@, "--no-playlist"@]);
        }
        match DownloadProcess::assign_parameters_to_command(&mut command, download_parameters) {
            Ok(()) => {},
            Err(e) => {
                return Err(e);
            },
        }
        let mut template =
            "%(title)s[|]%(thumbnail)s[|]%(duration_string)s[|]%(resolution)s[|]%(filesize_approx)s[|]".to_owned();
        template.append("%(title)s_%(epoch>%Y%m%d_%H_%M_%p)s_");
        template.append(download_parameters.id.as_str());
        template.append(".%(ext)s");
        template.append("[|]%(playlist_count)s[|]%(playlist_title)s[|]");
        template.append("%(playlist_title)s_%(epoch>%Y%m%d_%H_%M_%p)s_");
        template.append(download_parameters.id.as_str());
        template.append("[|]%(webpage_url)s");
        proof {
            assert(template@ =~= record_template(download_parameters.id@));
        }
        let ghost middle = texts(command@);
        push_text(&mut command, "--print".to_owned());
        push_text(&mut command, template);
        proof {
            assert(texts(command@) =~= middle + seq![
                "--print"@,
                record_template(download_parameters.id@),
            ]);
        }
        Ok(command)
    }

    /// The arguments of the run that fetches the files into
    /// `download_path`.
    pub fn fetch_arguments(
        download_parameters: &DownloadParameters,
        is_playlist: bool,
        download_path: &str,
    ) -> (r: Result<Vec<String>, DownloadError>)
        ensures
            match fetch_arguments_of(
                download_parameters.format@,
                download_parameters.resolution@,
                download_parameters.link@,
                is_playlist,
                download_path@,
            ) {
                Some(arguments) => r is Ok && texts(r.unwrap()@) == arguments,
                None => r == Err::<Vec<String>, DownloadError>(DownloadError::UnsupportedFormat),
            },
    {
        let mut command: Vec<String> = Vec::new();
        push_text(&mut command, download_parameters.link.clone());
        push_text(&mut command, "--no-playlist".to_owned());
        let ghost head = texts(command@);
        proof {
            assert(head =~= seq![download_parameters.link@, "--no-playlist"@]);
        }
        match DownloadProcess::assign_parameters_to_command(&mut command, download_parameters) {
            Ok(()) => {},
            Err(e) => {
                return Err(e);
            },
        }
        let mut target = download_path.to_owned();
        if is_playlist {
            target.append("/%(title)s.%(ext)s");
        }
        let ghost middle = texts(command@);
        push_text(&mut command, "--no-part".to_owned());
        push_text(&mut command, "-o".to_owned());
        push_text(&mut command, target);
        push_text(&mut command, "--newline".to_owned());
        proof {
            assert(texts(command@) =~= middle + seq![
                "--no-part"@,
                "-o"@,
                output_template(is_playlist, download_path@),
                "--newline"@,
            ]);
        }
        Ok(command)
    }

    /// Plans the download of a request from what the metadata run wrote to
    /// its standard output: the metadata, the arguments of the fetching run
    /// and the session for it. A request for an unsupported format is
    /// refused whatever the output holds; otherwise the plan exists exactly
    /// where the output describes metadata.
    pub fn download(download_parameters: &DownloadParameters, host: Platform, output: &[u8]) -> (r:
        Result<DownloadPlan, DownloadError>)
        ensures
            match r {
                Ok(plan) => {
                    &&& metadata_of_bytes(
                        download_parameters.id@,
                        download_parameters.download_folder@,
                        host,
                        output@,
                    ) == Ok::<MetadataModel, MetadataError>(plan.metadata@)
                    &&& plan.metadata@.well_formed()
                    &&& is_clean(
                        destination_name(
                            records_of(decode_utf8(output@)),
                            host.windows_names,
                        ),
                    )
                    &&& has_clean_name(plan.metadata@.download_path, host.separator)
                    &&& plan.process@.progress.well_formed()
                    &&& fetch_arguments_of(
                        download_parameters.format@,
                        download_parameters.resolution@,
                        download_parameters.link@,
                        plan.metadata@.is_playlist,
                        plan.metadata@.download_path,
                    ) == Some(texts(plan.arguments@))
                    &&& plan.process@ == (SessionModel {
                        phase: Phase::Downloading,
                        is_playlist: plan.metadata@.is_playlist,
                        progress: initial_progress(download_parameters.id@),
                        is_cancelled: false,
                    })
                },
                Err(DownloadError::UnsupportedFormat) => format_arguments(
                    download_parameters.format@,
                    download_parameters.resolution@,
                ) is None,
                Err(DownloadError::Metadata(e)) => {
                    &&& format_arguments(
                        download_parameters.format@,
                        download_parameters.resolution@,
                    ) is Some
                    &&& metadata_of_bytes(
                        download_parameters.id@,
                        download_parameters.download_folder@,
                        host,
                        output@,
                    ) == Err::<MetadataModel, MetadataError>(e)
                },
            },
    {
        let mut probe: Vec<String> = Vec::new();
        match DownloadProcess::assign_parameters_to_command(&mut probe, download_parameters) {
            Ok(()) => {},
            Err(e) => {
                return Err(e);
            },
        }
        let metadata = match metadata_from_output(download_parameters, host, output) {
            Ok(metadata) => metadata,
            Err(e) => {
                return Err(DownloadError::Metadata(e));
            },
        };
        let arguments = match DownloadProcess::fetch_arguments(
            download_parameters,
            metadata.is_playlist,
            metadata.download_path.as_str(),
        ) {
            Ok(arguments) => arguments,
            Err(e) => {
                return Err(e);
            },
        };
        let process = DownloadProcess::new(download_parameters.id.clone(), metadata.is_playlist);
        Ok(DownloadPlan { metadata, arguments, process })
    }
}

} // verus!
