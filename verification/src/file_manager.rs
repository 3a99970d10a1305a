//! Showing a file in the file manager.

use crate::path::MediaPath;
use crate::text::{contains_text, str_contains, utf8_lossy};
use vstd::prelude::*;
use vstd::string::StrSliceExecFns;
use vstd::utf8::encode_utf8;

verus! {

/// Whether a byte stands for itself in a file URI.
pub open spec fn is_plain_uri_byte(b: u8) -> bool {
    ||| 65 <= b <= 90
    ||| 97 <= b <= 122
    ||| 48 <= b <= 57
    ||| b == 45  // -
    ||| b == 95  // _
    ||| b == 46  // .
    ||| b == 47  // /
}

/// A number below 16 as a hexadecimal digit, with capitals.
pub open spec fn hex_digit_upper(d: nat) -> char {
    if d < 10 {
        (48 + d) as char
    } else {
        (55 + d) as char
    }
}

/// A byte as it stands in a file URI.
pub open spec fn uri_byte(b: u8) -> Seq<char> {
    if is_plain_uri_byte(b) {
        seq![b as char]
    } else {
        seq!['%', hex_digit_upper((b / 16) as nat), hex_digit_upper((b % 16) as nat)]
    }
}

/// Bytes as they stand in a file URI.
pub open spec fn uri_bytes(bytes: Seq<u8>) -> Seq<char>
    decreases bytes.len(),
{
    if bytes.len() == 0 {
        Seq::empty()
    } else {
        uri_bytes(bytes.drop_last()) + uri_byte(bytes.last())
    }
}

/// The file URI of a path.
pub open spec fn file_uri(path: Seq<u8>) -> Seq<char> {
    "file://"@ + uri_bytes(encode_utf8(utf8_lossy(path)))
}

fn hex_char_upper(d: u8) -> (c: char)
    requires
        d < 16,
    ensures
        c == hex_digit_upper(d as nat),
{
    if d < 10 {
        (48 + d) as char
    } else {
        (55 + d) as char
    }
}

/// The file URI of a path: letters, digits, `-`, `_`, `.` and `/` stand for themselves, every
/// other byte is written with a percent sign.
pub fn path_to_file_uri(path: &MediaPath) -> (uri: String)
    ensures
        uri@ == file_uri(path@),
{
    let text = path.to_text();
    let bytes = text.as_str().as_bytes();
    let mut uri = String::new();
    uri.push_str("file://");
    let mut i: usize = 0;
    assert(bytes@.take(0) =~= Seq::empty());
    assert(uri@ =~= "file://"@ + uri_bytes(bytes@.take(0)));
    while i < bytes.len()
        invariant
            i <= bytes.len(),
            uri@ == "file://"@ + uri_bytes(bytes@.take(i as int)),
        decreases bytes.len() - i,
    {
        let b = bytes[i];
        let ghost before = uri@;
        if (65 <= b && b <= 90) || (97 <= b && b <= 122) || (48 <= b && b <= 57) || b == 45 || b
            == 95 || b == 46 || b == 47 {
            uri.push(b as char);
        } else {
            uri.push('%');
            uri.push(hex_char_upper(b / 16));
            uri.push(hex_char_upper(b % 16));
        }
        assert(uri@ =~= before + uri_byte(b));
        assert(bytes@.take(i + 1).drop_last() =~= bytes@.take(i as int));
        i += 1;
        assert(uri@ =~= "file://"@ + uri_bytes(bytes@.take(i as int)));
    }
    assert(bytes@.take(i as int) =~= bytes@);
    uri
}

/// A program to run with its arguments.
#[derive(Debug)]
pub struct RevealCommand {
    pub program: String,
    pub args: Vec<String>,
}

/// What [`RevealCommand`] holds.
pub struct CommandView {
    pub program: Seq<char>,
    pub args: Seq<Seq<char>>,
}

impl View for RevealCommand {
    type V = CommandView;

    open spec fn view(&self) -> CommandView {
        CommandView { program: self.program@, args: texts_of(self.args@) }
    }
}

/// The characters of several texts.
pub open spec fn texts_of(texts: Seq<String>) -> Seq<Seq<char>> {
    texts.map_values(|t: String| t@)
}

/// The call of the service that file managers offer for showing files.
pub open spec fn show_items_command(path: Seq<u8>) -> CommandView {
    CommandView {
        program: "gdbus"@,
        args: seq![
            "call"@,
            "--session"@,
            "--dest"@,
            "org.freedesktop.FileManager1"@,
            "--object-path"@,
            "/org/freedesktop/FileManager1"@,
            "--method"@,
            "org.freedesktop.FileManager1.ShowItems"@,
            "['"@ + file_uri(path) + "']"@,
            "''"@,
        ],
    }
}

/// The start of a file manager with a file selected.
pub open spec fn select_command(program: Seq<char>, path: Seq<u8>) -> CommandView {
    CommandView { program, args: seq!["--select"@, utf8_lossy(path)] }
}

/// What to try, one after the other, for a file to be shown in a file manager.
pub open spec fn reveal_list(path: Seq<u8>) -> Seq<CommandView> {
    seq![
        show_items_command(path),
        select_command("nautilus"@, path),
        select_command("dolphin"@, path),
        select_command("nemo"@, path),
        select_command("caja"@, path),
        select_command("pcmanfm-qt"@, path),
        select_command("pcmanfm"@, path),
    ]
}

fn show_items(path: &MediaPath) -> (command: RevealCommand)
    ensures
        command@ == show_items_command(path@),
{
    let uri = path_to_file_uri(path);
    let mut list = String::new();
    list.push_str("['");
    list.push_str(uri.as_str());
    list.push_str("']");
    assert(list@ =~= "['"@ + file_uri(path@) + "']"@);
    let args: Vec<String> = vec![
        "call".to_string(),
        "--session".to_string(),
        "--dest".to_string(),
        "org.freedesktop.FileManager1".to_string(),
        "--object-path".to_string(),
        "/org/freedesktop/FileManager1".to_string(),
        "--method".to_string(),
        "org.freedesktop.FileManager1.ShowItems".to_string(),
        list,
        "''".to_string(),
    ];
    let command = RevealCommand { program: "gdbus".to_string(), args };
    assert(command@.args =~= show_items_command(path@).args);
    command
}

fn select_with(program: &str, path: &MediaPath) -> (command: RevealCommand)
    ensures
        command@ == select_command(program@, path@),
{
    let args: Vec<String> = vec!["--select".to_string(), path.to_text()];
    let command = RevealCommand { program: program.to_string(), args };
    assert(command@.args =~= select_command(program@, path@).args);
    command
}

/// What to try, one after the other, for a file to be shown in a file manager of a Linux desktop.
/// The first one that works is enough.
pub fn reveal_commands(path: &MediaPath) -> (commands: Vec<RevealCommand>)
    ensures
        commands@.map_values(|c: RevealCommand| c@) == reveal_list(path@),
{
    let commands: Vec<RevealCommand> = vec![
        show_items(path),
        select_with("nautilus", path),
        select_with("dolphin", path),
        select_with("nemo", path),
        select_with("caja", path),
        select_with("pcmanfm-qt", path),
        select_with("pcmanfm", path),
    ];
    assert(commands@.map_values(|c: RevealCommand| c@) =~= reveal_list(path@));
    commands
}

/// The argument with which Windows' file manager shows a file: a path with a space in it is put
/// in quotes.
pub fn explorer_argument(path: &MediaPath) -> (arg: String)
    ensures
        arg@ == (if contains_text(utf8_lossy(path@), " "@) {
            "/select,\""@ + utf8_lossy(path@) + "\""@
        } else {
            "/select,"@ + utf8_lossy(path@)
        }),
{
    let text = path.to_text();
    let mut arg = String::new();
    if str_contains(text.as_str(), " ") {
        arg.push_str("/select,\"");
        arg.push_str(text.as_str());
        arg.push_str("\"");
        assert(arg@ =~= "/select,\""@ + utf8_lossy(path@) + "\""@);
    } else {
        arg.push_str("/select,");
        arg.push_str(text.as_str());
        assert(arg@ =~= "/select,"@ + utf8_lossy(path@));
    }
    arg
}

/// A text as it stands in quotes in a script: quotes and backslashes have a backslash before them.
pub open spec fn escaped(text: Seq<char>) -> Seq<char>
    decreases text.len(),
{
    if text.len() == 0 {
        Seq::empty()
    } else {
        let rest = escaped(text.drop_last());
        if text.last() == '\\' || text.last() == '"' {
            rest.push('\\').push(text.last())
        } else {
            rest.push(text.last())
        }
    }
}

/// The script with which macOS' file manager shows a file.
pub fn finder_script(path: &MediaPath) -> (script: String)
    ensures
        script@ == "tell application \"Finder\" to reveal POSIX file \""@ + escaped(
            utf8_lossy(path@),
        ) + "\""@,
{
    let text = path.to_text();
    let mut script = String::new();
    script.push_str("tell application \"Finder\" to reveal POSIX file \"");
    let ghost start = script@;
    let len = text.as_str().unicode_len();
    let mut i: usize = 0;
    assert(text@.take(0) =~= Seq::empty());
    assert(script@ =~= start + escaped(text@.take(0)));
    while i < len
        invariant
            i <= len,
            len == text@.len(),
            script@ == start + escaped(text@.take(i as int)),
        decreases len - i,
    {
        let c = text.as_str().get_char(i);
        if c == '\\' || c == '"' {
            script.push('\\');
        }
        script.push(c);
        assert(text@.take(i + 1).drop_last() =~= text@.take(i as int));
        i += 1;
        assert(script@ =~= start + escaped(text@.take(i as int)));
    }
    assert(text@.take(i as int) =~= text@);
    script.push_str("\"");
    script
}

/// The number that a hexadecimal digit with capitals stands for.
pub open spec fn capital_digit_read(c: char) -> int {
    if '0' <= c <= '9' {
        c as int - '0' as int
    } else {
        c as int - 'A' as int + 10
    }
}

/// A file URI is written byte by byte. Letters, digits, `-`, `_`, `.` and `/` stand for
/// themselves; of any other byte there is a percent sign and two digits that read back as it.
pub proof fn uri_is_written_byte_by_byte(a: Seq<u8>, b: u8)
    ensures
        uri_bytes(Seq::empty()) == Seq::<char>::empty(),
        ('a' as int <= b <= 'z' as int || 'A' as int <= b <= 'Z' as int || '0' as int <= b
            <= '9' as int || b == '-' as int || b == '_' as int || b == '.' as int || b
            == '/' as int) ==> uri_bytes(a.push(b)) == uri_bytes(a).push(b as char),
        !('a' as int <= b <= 'z' as int || 'A' as int <= b <= 'Z' as int || '0' as int <= b
            <= '9' as int || b == '-' as int || b == '_' as int || b == '.' as int || b
            == '/' as int) ==> exists|high: char, low: char|
            uri_bytes(a.push(b)) == uri_bytes(a) + #[trigger] seq!['%', high, low] && (
            capital_digit_read(high) * 16 + capital_digit_read(low) == b) && ('0' <= high <= '9'
                || 'A' <= high <= 'F') && ('0' <= low <= '9' || 'A' <= low <= 'F'),
{
    assert(a.push(b).drop_last() =~= a);
    let high = hex_digit_upper((b / 16) as nat);
    let low = hex_digit_upper((b % 16) as nat);
    if is_plain_uri_byte(b) {
        assert(uri_bytes(a.push(b)) =~= uri_bytes(a).push(b as char));
    } else {
        assert(uri_bytes(a.push(b)) =~= uri_bytes(a) + seq!['%', high, low]);
    }
}

/// The URI of a path names its text behind the sign for files.
pub proof fn uri_names_the_path(path: Seq<u8>)
    ensures
        file_uri(path) == "file://"@ + uri_bytes(encode_utf8(utf8_lossy(path))),
{
}

/// A text is escaped character by character: a backslash comes before quotes and backslashes, and
/// nothing else is added.
pub proof fn escaping_adds_backslashes(text: Seq<char>, c: char)
    ensures
        escaped(Seq::empty()) == Seq::<char>::empty(),
        c == '"' || c == '\\' ==> escaped(text.push(c)) == escaped(text) + seq!['\\', c],
        c != '"' && c != '\\' ==> escaped(text.push(c)) == escaped(text).push(c),
{
    assert(text.push(c).drop_last() =~= text);
    assert(escaped(text).push('\\').push(c) =~= escaped(text) + seq!['\\', c]);
}

/// The service for showing files is tried first, with the URI of the file, and then one file
/// manager after the other, with the file selected.
pub proof fn service_is_tried_before_file_managers(path: Seq<u8>)
    ensures
        reveal_list(path).len() == 7,
        reveal_list(path)[0].program == "gdbus"@,
        reveal_list(path)[0].args.len() == 10,
        reveal_list(path)[0].args[0] == "call"@,
        reveal_list(path)[0].args[1] == "--session"@,
        reveal_list(path)[0].args[2] == "--dest"@,
        reveal_list(path)[0].args[3] == "org.freedesktop.FileManager1"@,
        reveal_list(path)[0].args[4] == "--object-path"@,
        reveal_list(path)[0].args[5] == "/org/freedesktop/FileManager1"@,
        reveal_list(path)[0].args[6] == "--method"@,
        reveal_list(path)[0].args[7] == "org.freedesktop.FileManager1.ShowItems"@,
        reveal_list(path)[0].args[8] == "['"@ + file_uri(path) + "']"@,
        reveal_list(path)[0].args[9] == "''"@,
        reveal_list(path)[1].program == "nautilus"@,
        reveal_list(path)[2].program == "dolphin"@,
        reveal_list(path)[3].program == "nemo"@,
        reveal_list(path)[4].program == "caja"@,
        reveal_list(path)[5].program == "pcmanfm-qt"@,
        reveal_list(path)[6].program == "pcmanfm"@,
        forall|k: int|
            1 <= k < 7 ==> (#[trigger] reveal_list(path)[k]).args.len() == 2 && reveal_list(
                path,
            )[k].args[0] == "--select"@ && reveal_list(path)[k].args[1] == utf8_lossy(path),
{
}

} // verus!
