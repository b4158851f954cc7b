//! Registering an asset in the server configuration.

use crate::error::IoError;
use crate::stream::{accepted_bytes, lemma_accepted_bytes_push, write_event, ByteSink, WriteEvent};
use vstd::prelude::*;
use vstd::string::StringExecFns;
use vstd::utf8::encode_utf8;

verus! {

/// The section header for the asset `name`.
pub open spec fn section_header(name: Seq<char>) -> Seq<char> {
    "["@ + name + " KFMapSummary]"@
}

/// The line that names the map of the asset `name`.
pub open spec fn map_name_line(name: Seq<char>) -> Seq<char> {
    "MapName="@ + name
}

/// The block that registers the asset `name`: an empty line, the section
/// header, the map name, the placeholder for the preview picture, and a last
/// line of eight blanks.
pub open spec fn config_block(name: Seq<char>) -> Seq<char> {
    "\n"@ + section_header(name) + "\n"@ + map_name_line(name)
        + "\nScreenshotPathName=UI_MapPreview_TEX.UI_MapPreview_Placeholder\n        "@
}

/// Builds the block that registers `map_name`. The name goes in unchanged.
pub fn config_entry(map_name: &str) -> (block: String)
    ensures
        block@ == config_block(map_name@),
{
    let block = String::from_str("\n").concat("[").concat(map_name).concat(" KFMapSummary]").concat(
        "\n",
    ).concat("MapName=").concat(map_name).concat(
        "\nScreenshotPathName=UI_MapPreview_TEX.UI_MapPreview_Placeholder\n        ",
    );
    proof {
        assert(block@ =~= config_block(map_name@));
    }
    block
}

/// Appends the block for `map_name` to the configuration, in one write.
///
/// Nothing is read, sought or compared: a name registered twice has two
/// blocks. A failed write is handed on as it is.
pub fn update_config<W: ByteSink>(kf2_config: &mut W, map_name: &str) -> (result: Result<
    (),
    IoError,
>)
    requires
        old(kf2_config).wf(),
    ensures
        final(kf2_config).wf(),
        final(kf2_config).writes() == old(kf2_config).writes().push(
            write_event(encode_utf8(config_block(map_name@)), result),
        ),
{
    let block = config_entry(map_name);
    kf2_config.write_all(block.as_str().as_bytes())
}

/// Whether `part` stands in `text` in one piece, starting at `at`.
pub open spec fn found_at(text: Seq<char>, part: Seq<char>, at: nat) -> bool {
    &&& at + part.len() <= text.len()
    &&& text.subrange(at as int, (at + part.len()) as int) == part
}

/// The block of an asset holds its section header and its map name line,
/// each in one piece and each with the name as it was given, whatever the
/// name is.
pub proof fn lemma_block_names_asset(name: Seq<char>)
    ensures
        found_at(config_block(name), section_header(name), 1),
        found_at(config_block(name), map_name_line(name), 2 + section_header(name).len()),
        found_at(section_header(name), name, 1),
        found_at(map_name_line(name), name, 8),
{
    reveal_strlit("\n");
    reveal_strlit("[");
    reveal_strlit("MapName=");
    let block = config_block(name);
    let header = section_header(name);
    let line = map_name_line(name);
    let line_at = 2 + header.len();
    assert(block.subrange(1, (1 + header.len()) as int) =~= header);
    assert(block.subrange(line_at as int, (line_at + line.len()) as int) =~= line);
    assert(header.subrange(1, (1 + name.len()) as int) =~= name);
    assert(line.subrange(8, (8 + name.len()) as int) =~= name);
}

/// Registering appends and does nothing else: after two registrations that
/// succeeded, the configuration holds what it held before, then the first
/// block, then the second.
pub proof fn lemma_registrations_append(writes: Seq<WriteEvent>, first: Seq<char>, second: Seq<char>)
    ensures
        accepted_bytes(
            writes.push(WriteEvent::Accepted(encode_utf8(config_block(first)))).push(
                WriteEvent::Accepted(encode_utf8(config_block(second))),
            ),
        ) == accepted_bytes(writes) + encode_utf8(config_block(first)) + encode_utf8(
            config_block(second),
        ),
{
    let one = WriteEvent::Accepted(encode_utf8(config_block(first)));
    let two = WriteEvent::Accepted(encode_utf8(config_block(second)));
    lemma_accepted_bytes_push(writes, one);
    lemma_accepted_bytes_push(writes.push(one), two);
}

/// A registration that failed has added nothing that counts as accepted.
pub proof fn lemma_failed_registration_adds_nothing(
    writes: Seq<WriteEvent>,
    name: Seq<char>,
    error: IoError,
)
    ensures
        accepted_bytes(
            writes.push(write_event(encode_utf8(config_block(name)), Err(error))),
        ) == accepted_bytes(writes),
{
    lemma_accepted_bytes_push(writes, write_event(encode_utf8(config_block(name)), Err(error)));
}

} // verus!
