//! What a new bot's project looks like: where its folder stands and what its
//! first files hold.

use vstd::prelude::*;
use vstd::string::*;
use crate::paths::{bots_dir, bots_dir_text, join, joined};

verus! {

/// A bot as the list of bots records it.
#[derive(Debug, Clone, PartialEq, Eq)]
pub struct BotEntry {
    pub name: String,
    pub description: String,
    pub path: String,
}

/// What a `BotEntry` stands for in contracts.
pub struct BotEntryView {
    pub name: Seq<char>,
    pub description: Seq<char>,
    pub path: Seq<char>,
}

impl View for BotEntry {
    type V = BotEntryView;

    open spec fn view(&self) -> BotEntryView {
        BotEntryView { name: self.name@, description: self.description@, path: self.path@ }
    }
}

/// A character with the Unicode property White_Space: the characters that
/// trimming a text takes off its ends.
pub open spec fn is_white_space(c: char) -> bool {
    let n = c as u32;
    ||| 0x09 <= n <= 0x0D
    ||| n == 0x20
    ||| n == 0x85
    ||| n == 0xA0
    ||| n == 0x1680
    ||| 0x2000 <= n <= 0x200A
    ||| n == 0x2028
    ||| n == 0x2029
    ||| n == 0x202F
    ||| n == 0x205F
    ||| n == 0x3000
}

/// A text that holds nothing but white space, so that nothing is left of it
/// once it is trimmed. The empty text is blank.
pub open spec fn is_blank_text(text: Seq<char>) -> bool {
    forall|i: int| 0 <= i < text.len() ==> is_white_space(#[trigger] text[i])
}

/// The directory in which a new bot's folder is made: the one that was asked
/// for, unless none was or it is blank; then the directory of the bots.
pub open spec fn bot_parent_text(custom_path: Option<Seq<char>>) -> Seq<char> {
    match custom_path {
        Some(path) => if is_blank_text(path) {
            bots_dir_text()
        } else {
            path
        },
        None => bots_dir_text(),
    }
}

/// The first content of a bot's configuration: its name and its description,
/// a line each.
pub open spec fn config_text_of(name: Seq<char>, description: Seq<char>) -> Seq<char> {
    "name: "@ + name + "\ndescription: "@ + description + "\n"@
}

/// The first content of a bot's main source file.
pub const MAIN_SOURCE_TEXT: &'static str = "# main bot logic goes here\n";

/// Whether a character is white space.
pub fn is_white_space_char(c: char) -> (b: bool)
    ensures
        b == is_white_space(c),
{
    let n: u32 = c as u32;
    (0x09 <= n && n <= 0x0D) || n == 0x20 || n == 0x85 || n == 0xA0 || n == 0x1680 || (0x2000 <= n
        && n <= 0x200A) || n == 0x2028 || n == 0x2029 || n == 0x202F || n == 0x205F || n == 0x3000
}

/// Whether a text holds nothing but white space.
pub fn is_blank(text: &str) -> (b: bool)
    ensures
        b == is_blank_text(text@),
{
    let len = text.unicode_len();
    let mut i: usize = 0;
    while i < len
        invariant
            0 <= i <= len,
            len == text@.len(),
            forall|k: int| 0 <= k < i ==> is_white_space(#[trigger] text@[k]),
        decreases len - i,
    {
        if !is_white_space_char(text.get_char(i)) {
            return false;
        }
        i += 1;
    }
    true
}

/// The folder of a new bot named `bot_name`.
pub fn bot_folder(bot_name: &str, custom_path: Option<&str>) -> (folder: String)
    ensures
        folder@ == joined(
            bot_parent_text(
                match custom_path {
                    Some(path) => Some(path@),
                    None => None,
                },
            ),
            bot_name@,
        ),
{
    match custom_path {
        Some(path) => {
            if !is_blank(path) {
                return join(path, bot_name);
            }
        },
        None => {},
    }
    join(bots_dir().as_str(), bot_name)
}

/// The first content of a bot's configuration.
pub fn config_text(bot_name: &str, bot_description: &str) -> (text: String)
    ensures
        text@ == config_text_of(bot_name@, bot_description@),
{
    "name: ".to_owned().concat(bot_name).concat("\ndescription: ").concat(bot_description).concat(
        "\n",
    )
}

impl BotEntry {
    /// The record of a bot that was made in `folder`.
    pub fn new(bot_name: &str, bot_description: &str, folder: &str) -> (entry: BotEntry)
        ensures
            entry@ == (BotEntryView {
                name: bot_name@,
                description: bot_description@,
                path: folder@,
            }),
    {
        BotEntry {
            name: bot_name.to_owned(),
            description: bot_description.to_owned(),
            path: folder.to_owned(),
        }
    }
}

} // verus!
