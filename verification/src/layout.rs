//! Where the files of a run go, and the lines that report on it.

use vstd::prelude::*;
use vstd::string::*;
use crate::text::{decimal, push_decimal};

verus! {

/// The output root.
pub open spec fn root_text() -> Seq<char> {
    "output"@
}

/// The directory of deck `page`: `output/deck<page>`.
pub open spec fn deck_dir_text(page: nat) -> Seq<char> {
    "output/deck"@ + decimal(page)
}

/// The file of the copy in position `slot` of deck `page`:
/// `output/deck<page>/image<slot>.png`.
pub open spec fn image_file_text(page: nat, slot: nat) -> Seq<char> {
    deck_dir_text(page) + "/image"@ + decimal(slot) + ".png"@
}

/// The file of the card back.
pub open spec fn back_file_text() -> Seq<char> {
    "output/back.png"@
}

/// The report on the number of entries read.
pub open spec fn unique_line_text(unique: nat) -> Seq<char> {
    "parsed "@ + decimal(unique) + " unique cards"@
}

/// The report on the number of copies asked for.
pub open spec fn total_line_text(total: nat) -> Seq<char> {
    "parsed "@ + decimal(total) + " total cards"@
}

/// The report on the number of files written.
pub open spec fn saved_line_text(saved: nat) -> Seq<char> {
    "saved "@ + decimal(saved) + " images"@
}

/// The path of the output root.
pub fn output_root() -> (path: String)
    ensures
        path@ == root_text(),
{
    String::from_str("output")
}

/// The path of the directory of deck `page`.
pub fn deck_dir(page: usize) -> (path: String)
    ensures
        path@ == deck_dir_text(page as nat),
{
    let mut path = String::from_str("output/deck");
    push_decimal(&mut path, page);
    path
}

/// The path of the file of the copy in position `slot` of deck `page`.
pub fn image_file(page: usize, slot: usize) -> (path: String)
    ensures
        path@ == image_file_text(page as nat, slot as nat),
{
    let mut path = deck_dir(page);
    path.append("/image");
    push_decimal(&mut path, slot);
    path.append(".png");
    path
}

/// The path of the file of the card back.
pub fn back_file() -> (path: String)
    ensures
        path@ == back_file_text(),
{
    String::from_str("output/back.png")
}

/// The line that reports the number of entries read.
pub fn unique_line(unique: usize) -> (line: String)
    ensures
        line@ == unique_line_text(unique as nat),
{
    let mut line = String::from_str("parsed ");
    push_decimal(&mut line, unique);
    line.append(" unique cards");
    line
}

/// The line that reports the number of copies asked for.
pub fn total_line(total: usize) -> (line: String)
    ensures
        line@ == total_line_text(total as nat),
{
    let mut line = String::from_str("parsed ");
    push_decimal(&mut line, total);
    line.append(" total cards");
    line
}

/// The line that reports the number of files written.
pub fn saved_line(saved: usize) -> (line: String)
    ensures
        line@ == saved_line_text(saved as nat),
{
    let mut line = String::from_str("saved ");
    push_decimal(&mut line, saved);
    line.append(" images");
    line
}

} // verus!
