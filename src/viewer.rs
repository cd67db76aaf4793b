//! The file viewer's logic: which view modes each kind of file offers, how
//! a file's kind is told from its name and first bytes, the text and hex
//! renderings, and scrolling. Running the external inspection tools is left
//! to the caller, which hands their output back.

use vstd::prelude::*;
use vstd::string::StringExecFns;
use crate::paths::{extension_of, path_extension};
use crate::util::{decimal, digit_char, lower_of, lowercase, push_char, push_decimal, text_ends_with, text_eq};

verus! {

/// Largest part of a file that is read (50 MiB).
pub const MAX_FILE_SIZE: usize = 52428800;

/// Most lines kept from a tool's output.
pub const MAX_OUTPUT_LINES: usize = 50000;

/// Bytes examined to tell text from binary content.
pub const TEXT_SAMPLE_SIZE: usize = 8192;

#[derive(Clone, Copy, PartialEq, Eq, Default, Hash, Debug, Structural)]
pub enum ViewMode {
    #[default]
    Text,
    Hex,
    Disasm,
    Strings,
    ElfHeader,
    Sections,
    Symbols,
    Ldd,
    FileInfo,
    Exif,
    Archive,
    Json,
}

pub open spec fn label_of(m: ViewMode) -> Seq<char> {
    match m {
        ViewMode::Text => "Text"@,
        ViewMode::Hex => "Hex"@,
        ViewMode::Disasm => "Disasm"@,
        ViewMode::Strings => "Strings"@,
        ViewMode::ElfHeader => "ELF Header"@,
        ViewMode::Sections => "Sections"@,
        ViewMode::Symbols => "Symbols"@,
        ViewMode::Ldd => "Libraries"@,
        ViewMode::FileInfo => "File Info"@,
        ViewMode::Exif => "EXIF"@,
        ViewMode::Archive => "Archive"@,
        ViewMode::Json => "JSON"@,
    }
}

pub open spec fn shortcut_of(m: ViewMode) -> Seq<char> {
    match m {
        ViewMode::Text => "t"@,
        ViewMode::Hex => "x"@,
        ViewMode::Disasm => "d"@,
        ViewMode::Strings => "s"@,
        ViewMode::ElfHeader => "h"@,
        ViewMode::Sections => "S"@,
        ViewMode::Symbols => "y"@,
        ViewMode::Ldd => "l"@,
        ViewMode::FileInfo => "i"@,
        ViewMode::Exif => "e"@,
        ViewMode::Archive => "a"@,
        ViewMode::Json => "J"@,
    }
}

impl ViewMode {
    /// The mode's name in the viewer's tab bar.
    pub fn label(&self) -> (r: &'static str)
        ensures
            r@ == label_of(*self),
    {
        match self {
            ViewMode::Text => "Text",
            ViewMode::Hex => "Hex",
            ViewMode::Disasm => "Disasm",
            ViewMode::Strings => "Strings",
            ViewMode::ElfHeader => "ELF Header",
            ViewMode::Sections => "Sections",
            ViewMode::Symbols => "Symbols",
            ViewMode::Ldd => "Libraries",
            ViewMode::FileInfo => "File Info",
            ViewMode::Exif => "EXIF",
            ViewMode::Archive => "Archive",
            ViewMode::Json => "JSON",
        }
    }

    /// The key that switches to the mode ("J" for JSON: "j" scrolls).
    pub fn shortcut(&self) -> (r: &'static str)
        ensures
            r@ == shortcut_of(*self),
    {
        match self {
            ViewMode::Text => "t",
            ViewMode::Hex => "x",
            ViewMode::Disasm => "d",
            ViewMode::Strings => "s",
            ViewMode::ElfHeader => "h",
            ViewMode::Sections => "S",
            ViewMode::Symbols => "y",
            ViewMode::Ldd => "l",
            ViewMode::FileInfo => "i",
            ViewMode::Exif => "e",
            ViewMode::Archive => "a",
            ViewMode::Json => "J",
        }
    }
}

/// A file's kind, which decides the view modes offered.
#[derive(Clone, Copy, PartialEq, Eq, Hash, Debug, Structural)]
pub enum FileType {
    Text,
    Binary,
    Elf,
    Archive,
    Image,
    Json,
    Unknown,
}

pub open spec fn modes_of(t: FileType) -> Seq<ViewMode> {
    match t {
        FileType::Text => seq![ViewMode::Text, ViewMode::Hex, ViewMode::FileInfo],
        FileType::Json => seq![ViewMode::Json, ViewMode::Text, ViewMode::Hex, ViewMode::FileInfo],
        FileType::Elf => seq![ViewMode::Hex, ViewMode::Disasm, ViewMode::Strings, ViewMode::ElfHeader,
            ViewMode::Sections, ViewMode::Symbols, ViewMode::Ldd, ViewMode::FileInfo],
        FileType::Archive => seq![ViewMode::Archive, ViewMode::Hex, ViewMode::FileInfo],
        FileType::Image => seq![ViewMode::Hex, ViewMode::Exif, ViewMode::FileInfo],
        FileType::Binary | FileType::Unknown => seq![ViewMode::Hex, ViewMode::Strings, ViewMode::FileInfo],
    }
}

/// The mode a file of kind `t` opens in.
pub open spec fn default_mode(t: FileType) -> ViewMode {
    match t {
        FileType::Text => ViewMode::Text,
        FileType::Json => ViewMode::Json,
        FileType::Archive => ViewMode::Archive,
        _ => ViewMode::Hex,
    }
}

impl FileType {
    /// The view modes offered for this kind of file, the preferred first.
    pub fn available_modes(&self) -> (r: Vec<ViewMode>)
        ensures
            r@ == modes_of(*self),
    {
        let mut r: Vec<ViewMode> = Vec::new();
        match self {
            FileType::Text => {
                r.push(ViewMode::Text);
                r.push(ViewMode::Hex);
                r.push(ViewMode::FileInfo);
            }
            FileType::Json => {
                r.push(ViewMode::Json);
                r.push(ViewMode::Text);
                r.push(ViewMode::Hex);
                r.push(ViewMode::FileInfo);
            }
            FileType::Elf => {
                r.push(ViewMode::Hex);
                r.push(ViewMode::Disasm);
                r.push(ViewMode::Strings);
                r.push(ViewMode::ElfHeader);
                r.push(ViewMode::Sections);
                r.push(ViewMode::Symbols);
                r.push(ViewMode::Ldd);
                r.push(ViewMode::FileInfo);
            }
            FileType::Archive => {
                r.push(ViewMode::Archive);
                r.push(ViewMode::Hex);
                r.push(ViewMode::FileInfo);
            }
            FileType::Image => {
                r.push(ViewMode::Hex);
                r.push(ViewMode::Exif);
                r.push(ViewMode::FileInfo);
            }
            FileType::Binary | FileType::Unknown => {
                r.push(ViewMode::Hex);
                r.push(ViewMode::Strings);
                r.push(ViewMode::FileInfo);
            }
        }
        assert(r@ =~= modes_of(*self));
        r
    }

    /// The mode a file of this kind opens in.
    pub fn default_mode(&self) -> (r: ViewMode)
        ensures
            r == default_mode(*self),
    {
        match self {
            FileType::Text => ViewMode::Text,
            FileType::Json => ViewMode::Json,
            FileType::Archive => ViewMode::Archive,
            _ => ViewMode::Hex,
        }
    }
}

pub open spec fn is_archive_ext(e: Seq<char>) -> bool {
    e == "tar"@
        || e == "gz"@
        || e == "tgz"@
        || e == "bz2"@
        || e == "xz"@
        || e == "zip"@
        || e == "jar"@
        || e == "7z"@
        || e == "rar"@
}

pub open spec fn is_image_ext(e: Seq<char>) -> bool {
    e == "jpg"@
        || e == "jpeg"@
        || e == "png"@
        || e == "gif"@
        || e == "bmp"@
        || e == "webp"@
        || e == "tiff"@
        || e == "ico"@
        || e == "svg"@
}

pub open spec fn is_text_ext(e: Seq<char>) -> bool {
    e == "txt"@
        || e == "md"@
        || e == "rst"@
        || e == "log"@
        || e == "cfg"@
        || e == "conf"@
        || e == "ini"@
        || e == "yaml"@
        || e == "yml"@
        || e == "toml"@
        || e == "xml"@
        || e == "html"@
        || e == "htm"@
        || e == "css"@
        || e == "js"@
        || e == "ts"@
        || e == "jsx"@
        || e == "tsx"@
        || e == "py"@
        || e == "rs"@
        || e == "go"@
        || e == "c"@
        || e == "h"@
        || e == "cpp"@
        || e == "hpp"@
        || e == "java"@
        || e == "kt"@
        || e == "scala"@
        || e == "rb"@
        || e == "php"@
        || e == "sh"@
        || e == "bash"@
        || e == "zsh"@
        || e == "fish"@
        || e == "ps1"@
        || e == "bat"@
        || e == "cmd"@
        || e == "sql"@
        || e == "vim"@
        || e == "lua"@
        || e == "pl"@
        || e == "pm"@
        || e == "r"@
        || e == "R"@
        || e == "jl"@
        || e == "swift"@
        || e == "m"@
        || e == "mm"@
        || e == "hs"@
        || e == "ml"@
        || e == "mli"@
        || e == "ex"@
        || e == "exs"@
        || e == "erl"@
        || e == "hrl"@
        || e == "clj"@
        || e == "cljs"@
        || e == "cljc"@
        || e == "lisp"@
        || e == "el"@
        || e == "scm"@
        || e == "rkt"@
        || e == "asm"@
        || e == "s"@
        || e == "S"@
        || e == "nasm"@
        || e == "Makefile"@
        || e == "makefile"@
        || e == "cmake"@
        || e == "dockerfile"@
        || e == "Dockerfile"@
        || e == "gitignore"@
        || e == "gitattributes"@
        || e == "editorconfig"@
        || e == "prettierrc"@
        || e == "eslintrc"@
        || e == "babelrc"@
        || e == "csv"@
        || e == "tsv"@
}

fn archive_ext(e: &str) -> (r: bool)
    ensures
        r == is_archive_ext(e@),
{
    text_eq(e, "tar")
        || text_eq(e, "gz")
        || text_eq(e, "tgz")
        || text_eq(e, "bz2")
        || text_eq(e, "xz")
        || text_eq(e, "zip")
        || text_eq(e, "jar")
        || text_eq(e, "7z")
        || text_eq(e, "rar")
}

fn image_ext(e: &str) -> (r: bool)
    ensures
        r == is_image_ext(e@),
{
    text_eq(e, "jpg")
        || text_eq(e, "jpeg")
        || text_eq(e, "png")
        || text_eq(e, "gif")
        || text_eq(e, "bmp")
        || text_eq(e, "webp")
        || text_eq(e, "tiff")
        || text_eq(e, "ico")
        || text_eq(e, "svg")
}

fn text_ext(e: &str) -> (r: bool)
    ensures
        r == is_text_ext(e@),
{
    text_eq(e, "txt")
        || text_eq(e, "md")
        || text_eq(e, "rst")
        || text_eq(e, "log")
        || text_eq(e, "cfg")
        || text_eq(e, "conf")
        || text_eq(e, "ini")
        || text_eq(e, "yaml")
        || text_eq(e, "yml")
        || text_eq(e, "toml")
        || text_eq(e, "xml")
        || text_eq(e, "html")
        || text_eq(e, "htm")
        || text_eq(e, "css")
        || text_eq(e, "js")
        || text_eq(e, "ts")
        || text_eq(e, "jsx")
        || text_eq(e, "tsx")
        || text_eq(e, "py")
        || text_eq(e, "rs")
        || text_eq(e, "go")
        || text_eq(e, "c")
        || text_eq(e, "h")
        || text_eq(e, "cpp")
        || text_eq(e, "hpp")
        || text_eq(e, "java")
        || text_eq(e, "kt")
        || text_eq(e, "scala")
        || text_eq(e, "rb")
        || text_eq(e, "php")
        || text_eq(e, "sh")
        || text_eq(e, "bash")
        || text_eq(e, "zsh")
        || text_eq(e, "fish")
        || text_eq(e, "ps1")
        || text_eq(e, "bat")
        || text_eq(e, "cmd")
        || text_eq(e, "sql")
        || text_eq(e, "vim")
        || text_eq(e, "lua")
        || text_eq(e, "pl")
        || text_eq(e, "pm")
        || text_eq(e, "r")
        || text_eq(e, "R")
        || text_eq(e, "jl")
        || text_eq(e, "swift")
        || text_eq(e, "m")
        || text_eq(e, "mm")
        || text_eq(e, "hs")
        || text_eq(e, "ml")
        || text_eq(e, "mli")
        || text_eq(e, "ex")
        || text_eq(e, "exs")
        || text_eq(e, "erl")
        || text_eq(e, "hrl")
        || text_eq(e, "clj")
        || text_eq(e, "cljs")
        || text_eq(e, "cljc")
        || text_eq(e, "lisp")
        || text_eq(e, "el")
        || text_eq(e, "scm")
        || text_eq(e, "rkt")
        || text_eq(e, "asm")
        || text_eq(e, "s")
        || text_eq(e, "S")
        || text_eq(e, "nasm")
        || text_eq(e, "Makefile")
        || text_eq(e, "makefile")
        || text_eq(e, "cmake")
        || text_eq(e, "dockerfile")
        || text_eq(e, "Dockerfile")
        || text_eq(e, "gitignore")
        || text_eq(e, "gitattributes")
        || text_eq(e, "editorconfig")
        || text_eq(e, "prettierrc")
        || text_eq(e, "eslintrc")
        || text_eq(e, "babelrc")
        || text_eq(e, "csv")
        || text_eq(e, "tsv")
}

/// A control byte other than tab, line feed and carriage return.
pub open spec fn is_control(b: u8) -> bool {
    b < 0x20 && b != 9 && b != 10 && b != 13
}

pub open spec fn control_count(s: Seq<u8>) -> nat
    decreases s.len(),
{
    if s.len() == 0 {
        0
    } else {
        control_count(s.drop_last()) + if is_control(s.last()) { 1nat } else { 0nat }
    }
}

/// The first 8 KiB of `bytes`.
pub open spec fn text_sample(bytes: Seq<u8>) -> Seq<u8> {
    if bytes.len() > TEXT_SAMPLE_SIZE { bytes.subrange(0, TEXT_SAMPLE_SIZE as int) } else { bytes }
}

/// Content looks like text: empty, or its first 8 KiB hold no NUL byte and
/// under 5% control bytes (tab, line feed and carriage return not counted).
pub open spec fn likely_text(bytes: Seq<u8>) -> bool {
    let s = text_sample(bytes);
    bytes.len() == 0 || (!s.contains(0u8) && control_count(s) * 20 < s.len())
}

/// Starts with the ELF magic number.
pub open spec fn has_elf_magic(bytes: Seq<u8>) -> bool {
    bytes.len() >= 4 && bytes[0] == 0x7f && bytes[1] == 0x45 && bytes[2] == 0x4c && bytes[3] == 0x46
}

/// The lowercase extension of `path`, "" when it has none.
pub open spec fn ext_key(path: Seq<char>) -> Seq<char> {
    match extension_of(path) {
        Some(e) => lower_of(e),
        None => lower_of(seq![]),
    }
}

/// The kind of a file from its name and content: ELF by its magic number,
/// else by extension, else text or binary by its content.
pub open spec fn kind_of(path: Seq<char>, bytes: Seq<u8>) -> FileType {
    let e = ext_key(path);
    if has_elf_magic(bytes) {
        FileType::Elf
    } else if is_archive_ext(e) {
        FileType::Archive
    } else if is_image_ext(e) {
        FileType::Image
    } else if e == "json"@ {
        FileType::Json
    } else if is_text_ext(e) || likely_text(bytes) {
        FileType::Text
    } else {
        FileType::Binary
    }
}

/// Whether content looks like text (see `likely_text`).
pub fn is_likely_text(bytes: &Vec<u8>) -> (r: bool)
    ensures
        r == likely_text(bytes@),
{
    if bytes.len() == 0 {
        return true;
    }
    let n: usize = if bytes.len() > TEXT_SAMPLE_SIZE { TEXT_SAMPLE_SIZE } else { bytes.len() };
    let ghost s = text_sample(bytes@);
    let mut count: usize = 0;
    let mut i: usize = 0;
    assert(s.subrange(0, 0) =~= Seq::<u8>::empty());
    while i < n
        invariant
            n == s.len(),
            s == text_sample(bytes@),
            n <= bytes@.len(),
            i <= n,
            count == control_count(s.subrange(0, i as int)),
            count <= i,
            !s.subrange(0, i as int).contains(0u8),
        decreases n - i,
    {
        let b = bytes[i];
        assert(s[i as int] == b);
        if b == 0 {
            assert(s[i as int] == 0u8);
            return false;
        }
        assert(s.subrange(0, i + 1).drop_last() =~= s.subrange(0, i as int));
        if b < 0x20 && b != 9 && b != 10 && b != 13 {
            count = count + 1;
        }
        proof {
            let t = s.subrange(0, i + 1);
            if t.contains(0u8) {
                let k = choose|k: int| 0 <= k < t.len() && t[k] == 0u8;
                assert(k < i ==> s.subrange(0, i as int)[k] == 0u8);
            }
        }
        i = i + 1;
    }
    assert(s.subrange(0, n as int) =~= s);
    count * 20 < n
}

/// The kind of file `path` with content `bytes` (see `kind_of`).
pub fn detect_file_type(path: &String, bytes: &Vec<u8>) -> (r: FileType)
    ensures
        r == kind_of(path@, bytes@),
{
    if bytes.len() >= 4 && bytes[0] == 0x7f && bytes[1] == 0x45 && bytes[2] == 0x4c && bytes[3] == 0x46 {
        return FileType::Elf;
    }
    proof {
        reveal_strlit("");
        assert(""@ =~= Seq::<char>::empty());
    }
    let ext = match path_extension(path) {
        Some(e) => lowercase(e.as_str()),
        None => lowercase(""),
    };
    assert(ext@ == ext_key(path@));
    let e = ext.as_str();
    if archive_ext(e) {
        FileType::Archive
    } else if image_ext(e) {
        FileType::Image
    } else if text_eq(e, "json") {
        FileType::Json
    } else if text_ext(e) || is_likely_text(bytes) {
        FileType::Text
    } else {
        FileType::Binary
    }
}


pub open spec fn hex_digit(d: nat) -> char {
    if d < 10 {
        digit_char(d)
    } else if d == 10 { 'a' }
    else if d == 11 { 'b' }
    else if d == 12 { 'c' }
    else if d == 13 { 'd' }
    else if d == 14 { 'e' }
    else { 'f' }
}

/// Lowercase hexadecimal digits of `n`, without leading zeros.
pub open spec fn hex_digits(n: nat) -> Seq<char>
    decreases n,
{
    if n < 16 { seq![hex_digit(n)] } else { hex_digits(n / 16).push(hex_digit(n % 16)) }
}

/// `n` in hexadecimal, padded with zeros to at least 8 digits (`{:08x}`).
pub open spec fn hex_offset(n: nat) -> Seq<char> {
    let d = hex_digits(n);
    if d.len() < 8 { Seq::new((8 - d.len()) as nat, |i: int| '0') + d } else { d }
}

/// Column `j` of a hex line's byte area: an extra space before column 8,
/// then the byte's two digits and a space, or three spaces past the end.
pub open spec fn hex_cell(chunk: Seq<u8>, j: int) -> Seq<char> {
    (if j == 8 { seq![' '] } else { seq![] }) + if j < chunk.len() {
        seq![hex_digit((chunk[j] / 16) as nat), hex_digit((chunk[j] % 16) as nat), ' ']
    } else {
        seq![' ', ' ', ' ']
    }
}

pub open spec fn hex_cells(chunk: Seq<u8>, n: int) -> Seq<char>
    decreases n,
{
    if n <= 0 { seq![] } else { hex_cells(chunk, n - 1) + hex_cell(chunk, n - 1) }
}

/// Printable ASCII (space included) as itself, anything else as '.'.
pub open spec fn ascii_of(b: u8) -> char {
    if 0x20 <= b <= 0x7e { b as char } else { '.' }
}

/// One hex dump line: offset, the 16 byte columns, and the ASCII column.
pub open spec fn hex_line(offset: nat, chunk: Seq<u8>) -> Seq<char> {
    hex_offset(offset) + seq![' ', ' '] + hex_cells(chunk, 16) + seq![' ', '|']
        + Seq::new(chunk.len(), |k: int| ascii_of(chunk[k])) + seq!['|']
}

/// The 16-byte slice of `bytes` shown on line `i`.
pub open spec fn hex_chunk(bytes: Seq<u8>, i: int) -> Seq<u8> {
    bytes.subrange(16 * i, if 16 * i + 16 <= bytes.len() { 16 * i + 16 } else { bytes.len() as int })
}

/// The hex dump of `bytes`, 16 bytes per line.
pub open spec fn hex_dump(bytes: Seq<u8>) -> Seq<Seq<char>> {
    Seq::new(((bytes.len() + 15) / 16) as nat, |i: int| hex_line((16 * i) as nat, hex_chunk(bytes, i)))
}

fn hex_char(d: u8) -> (r: char)
    requires
        d < 16,
    ensures
        r == hex_digit(d as nat),
{
    match d {
        0 => '0', 1 => '1', 2 => '2', 3 => '3', 4 => '4', 5 => '5', 6 => '6', 7 => '7',
        8 => '8', 9 => '9', 10 => 'a', 11 => 'b', 12 => 'c', 13 => 'd', 14 => 'e', _ => 'f',
    }
}

fn push_hex(s: &mut String, n: usize)
    ensures
        final(s)@ == old(s)@ + hex_digits(n as nat),
    decreases n,
{
    if n >= 16 {
        push_hex(s, n / 16);
    }
    push_char(s, hex_char((n % 16) as u8));
    assert(s@ =~= old(s)@ + hex_digits(n as nat));
}

fn hex_len(n: usize) -> (r: usize)
    ensures
        r == hex_digits(n as nat).len(),
        r <= n + 1,
    decreases n,
{
    if n < 16 { 1 } else { 1 + hex_len(n / 16) }
}

fn ascii_char(b: u8) -> (r: char)
    ensures
        r == ascii_of(b),
{
    if 0x20 <= b && b <= 0x7e { b as char } else { '.' }
}

/// The hex dump of `bytes` (see `hex_dump`).
pub fn hex_lines(bytes: &Vec<u8>) -> (r: Vec<String>)
    ensures
        r@.map_values(|l: String| l@) == hex_dump(bytes@),
{
    let n = bytes.len();
    let mut lines: Vec<String> = Vec::new();
    let mut i: usize = 0;
    let mut done = n == 0;
    while !done
        invariant
            n == bytes@.len(),
            i % 16 == 0,
            !done ==> i < n && lines@.len() == i / 16,
            done ==> lines@.len() == (n + 15) / 16,
            forall|k: int| 0 <= k < lines@.len() ==> #[trigger] lines@[k]@ == hex_line((16 * k) as nat, hex_chunk(bytes@, k)),
        decreases n - i + (if done { 0int } else { 1int }),
    {
        let end = if n - i >= 16 { i + 16 } else { n };
        let ghost chunk = bytes@.subrange(i as int, end as int);
        assert(chunk == hex_chunk(bytes@, (i / 16) as int));
        let mut line = String::new();
        let pad = hex_len(i);
        let mut z: usize = pad;
        while z < 8
            invariant
                pad <= z <= 8 || (pad > 8 && z == pad),
                line@ == Seq::new((z - pad) as nat, |q: int| '0'),
            decreases 8 - z,
        {
            push_char(&mut line, '0');
            z = z + 1;
            assert(line@ =~= Seq::new((z - pad) as nat, |q: int| '0'));
        }
        push_hex(&mut line, i);
        assert(line@ =~= hex_offset(i as nat));
        push_char(&mut line, ' ');
        push_char(&mut line, ' ');
        let ghost head = line@;
        let mut j: usize = 0;
        while j < 16
            invariant
                j <= 16,
                i <= end <= n,
                end - i <= 16,
                n == bytes@.len(),
                chunk == bytes@.subrange(i as int, end as int),
                line@ == head + hex_cells(chunk, j as int),
            decreases 16 - j,
        {
            let ghost before = line@;
            if j == 8 {
                push_char(&mut line, ' ');
            }
            if j < end - i {
                let b = bytes[i + j];
                assert(b == chunk[j as int]);
                push_char(&mut line, hex_char(b / 16));
                push_char(&mut line, hex_char(b % 16));
                push_char(&mut line, ' ');
            } else {
                push_char(&mut line, ' ');
                push_char(&mut line, ' ');
                push_char(&mut line, ' ');
            }
            assert(line@ =~= before + hex_cell(chunk, j as int));
            j = j + 1;
        }
        push_char(&mut line, ' ');
        push_char(&mut line, '|');
        let ghost mid = line@;
        let mut k: usize = i;
        while k < end
            invariant
                i <= k <= end <= n,
                n == bytes@.len(),
                chunk == bytes@.subrange(i as int, end as int),
                line@ == mid + Seq::new((k - i) as nat, |q: int| ascii_of(chunk[q])),
            decreases end - k,
        {
            push_char(&mut line, ascii_char(bytes[k]));
            k = k + 1;
            assert(line@ =~= mid + Seq::new((k - i) as nat, |q: int| ascii_of(chunk[q])));
        }
        push_char(&mut line, '|');
        assert(line@ =~= hex_line(i as nat, chunk));
        lines.push(line);
        if end == n {
            done = true;
        } else {
            i = end;
        }
    }
    assert(lines@.map_values(|l: String| l@) =~= hex_dump(bytes@));
    lines
}


/// The text that `String::from_utf8_lossy` makes of some bytes.
pub uninterp spec fn lossy_text_of(b: Seq<u8>) -> Seq<char>;

/// The lines that `str::lines` splits a text into.
pub uninterp spec fn lines_of(s: Seq<char>) -> Seq<Seq<char>>;

/// Whether `serde_json` parses a text as a JSON document.
pub uninterp spec fn json_parses(s: Seq<char>) -> bool;

/// The message of the error `serde_json` reports for a text it rejects.
pub uninterp spec fn json_error_of(s: Seq<char>) -> Seq<char>;

/// Relies on `String::from_utf8_lossy`: the bytes decoded as UTF-8, each
/// invalid sequence replaced by U+FFFD; a function of the bytes alone.
#[verifier::external_body]
fn lossy_text(b: &Vec<u8>) -> (r: String)
    ensures
        r@ == lossy_text_of(b@),
{
    String::from_utf8_lossy(b).into_owned()
}

/// Relies on `str::lines`: the lines of a text, split at "\n" or "\r\n",
/// without their terminators; an empty text has no lines.
#[verifier::external_body]
fn split_lines(s: &str) -> (r: Vec<String>)
    ensures
        r@.map_values(|l: String| l@) == lines_of(s@),
        s@.len() == 0 ==> r@.len() == 0,
{
    s.lines().map(|l| l.to_owned()).collect()
}

/// `serde_json::Value`, a parsed JSON document, carried unopened from
/// parsing to printing.
#[verifier::external_type_specification]
#[verifier::external_body]
pub struct ExJsonValue(serde_json::Value);

/// Relies on `serde_json::from_str::<Value>`: parses a JSON document; the
/// outcome, and the error's message, depend on the text alone.
#[verifier::external_body]
fn parse_json(s: &str) -> (r: Result<serde_json::Value, String>)
    ensures
        r is Ok == json_parses(s@),
        r is Err ==> r->Err_0@ == json_error_of(s@),
{
    serde_json::from_str::<serde_json::Value>(s).map_err(|e| e.to_string())
}

/// Relies on `serde_json::to_string_pretty`: the document indented, one
/// member per line.
#[verifier::external_body]
fn pretty_json(v: &serde_json::Value) -> (r: Option<String>)
{
    serde_json::to_string_pretty(v).ok()
}

/// The lines of `bytes` read as text.
pub open spec fn text_view(bytes: Seq<u8>) -> Seq<Seq<char>> {
    lines_of(lossy_text_of(bytes))
}

/// The lines shown for JSON content when no `jq` is at hand and it does not
/// parse: the parse error, a blank line, a marker, then the raw text.
pub open spec fn json_error_view(bytes: Seq<u8>) -> Seq<Seq<char>> {
    let t = lossy_text_of(bytes);
    seq!["JSON parse error: "@ + json_error_of(t), seq![], "--- Raw content ---"@] + lines_of(t)
}

fn copy_lines(v: &Vec<String>) -> (r: Vec<String>)
    ensures
        r@ == v@,
{
    let mut r: Vec<String> = Vec::new();
    let mut i: usize = 0;
    while i < v.len()
        invariant
            i <= v@.len(),
            r@ == v@.subrange(0, i as int),
        decreases v@.len() - i,
    {
        r.push(v[i].clone());
        i = i + 1;
        assert(r@ =~= v@.subrange(0, i as int));
    }
    assert(v@.subrange(0, i as int) =~= v@);
    r
}

/// JSON content pretty-printed, or, when it does not parse, the parse error
/// followed by the raw text.
pub fn json_lines(bytes: &Vec<u8>) -> (r: Vec<String>)
    ensures
        !json_parses(lossy_text_of(bytes@)) ==> r@.map_values(|l: String| l@) == json_error_view(bytes@),
{
    let text = lossy_text(bytes);
    match parse_json(text.as_str()) {
        Ok(v) => {
            let pretty = match pretty_json(&v) {
                Some(p) => p,
                None => text,
            };
            split_lines(pretty.as_str())
        }
        Err(e) => {
            let mut head = String::from_str("JSON parse error: ");
            head.append(e.as_str());
            let mut lines: Vec<String> = Vec::new();
            lines.push(head);
            lines.push(String::new());
            lines.push(String::from_str("--- Raw content ---"));
            let mut rest = split_lines(text.as_str());
            let ghost first = lines@.map_values(|l: String| l@);
            let ghost tail = rest@.map_values(|l: String| l@);
            lines.append(&mut rest);
            assert(lines@.map_values(|l: String| l@) =~= first + tail);
            assert(first =~= seq!["JSON parse error: "@ + json_error_of(lossy_text_of(bytes@)), seq![], "--- Raw content ---"@]);
            lines
        }
    }
}

/// The notice appended when a tool's output is cut.
pub open spec fn truncation_notice(total: nat) -> Seq<char> {
    "--- Output truncated ("@ + decimal(MAX_OUTPUT_LINES as nat) + " of "@ + decimal(total) + " lines shown) ---"@
}

/// A tool's output lines as shown: at most 50 000, with a blank line and a
/// notice after them when more were produced.
pub open spec fn capped(lines: Seq<Seq<char>>) -> Seq<Seq<char>> {
    if lines.len() > MAX_OUTPUT_LINES {
        lines.subrange(0, MAX_OUTPUT_LINES as int) + seq![seq![], truncation_notice(lines.len())]
    } else {
        lines
    }
}

/// A tool's output lines as shown (see `capped`).
pub fn capped_output(lines: Vec<String>) -> (r: Vec<String>)
    ensures
        r@.map_values(|l: String| l@) == capped(lines@.map_values(|l: String| l@)),
{
    let total = lines.len();
    if total <= MAX_OUTPUT_LINES {
        return lines;
    }
    let mut kept = lines;
    let ghost all = kept@.map_values(|l: String| l@);
    kept.truncate(MAX_OUTPUT_LINES);
    let mut notice = String::from_str("--- Output truncated (");
    push_decimal(&mut notice, MAX_OUTPUT_LINES as u128);
    notice.append(" of ");
    push_decimal(&mut notice, total as u128);
    notice.append(" lines shown) ---");
    kept.push(String::new());
    kept.push(notice);
    assert(kept@.map_values(|l: String| l@) =~= capped(all));
    kept
}

/// The command (program, then arguments, the file's path to be added last)
/// that produces the content of tool mode `m` for file `path`; for archives
/// it depends on the name's ending.
pub open spec fn command_for(m: ViewMode, path: Seq<char>) -> Option<Seq<Seq<char>>> {
    match m {
        ViewMode::Disasm => Some(seq!["objdump"@, "-d"@, "-M"@, "intel"@]),
        ViewMode::Strings => Some(seq!["strings"@, "-a"@]),
        ViewMode::ElfHeader => Some(seq!["readelf"@, "-h"@]),
        ViewMode::Sections => Some(seq!["readelf"@, "-S"@, "-W"@]),
        ViewMode::Symbols => Some(seq!["readelf"@, "--syms"@, "-W"@]),
        ViewMode::Ldd => Some(seq!["ldd"@]),
        ViewMode::FileInfo => Some(seq!["file"@, "-b"@]),
        ViewMode::Exif => Some(seq!["exiftool"@]),
        ViewMode::Json => Some(seq!["jq"@, "."@]),
        ViewMode::Archive => archive_command(path),
        _ => None,
    }
}

pub open spec fn ends_with(s: Seq<char>, suffix: Seq<char>) -> bool {
    s.len() >= suffix.len() && s.subrange(s.len() - suffix.len(), s.len() as int) == suffix
}

/// The listing command for an archive, chosen by the name's ending.
pub open spec fn archive_command(p: Seq<char>) -> Option<Seq<Seq<char>>> {
    if ends_with(p, ".tar"@) || ends_with(p, ".tar.gz"@) || ends_with(p, ".tgz"@)
        || ends_with(p, ".tar.bz2"@) || ends_with(p, ".tar.xz"@) {
        Some(seq!["tar"@, "-tvf"@])
    } else if ends_with(p, ".zip"@) || ends_with(p, ".jar"@) {
        Some(seq!["unzip"@, "-l"@])
    } else if ends_with(p, ".gz"@) {
        Some(seq!["gzip"@, "-l"@])
    } else if ends_with(p, ".xz"@) {
        Some(seq!["xz"@, "-l"@])
    } else if ends_with(p, ".7z"@) {
        Some(seq!["7z"@, "l"@])
    } else if ends_with(p, ".rar"@) {
        Some(seq!["unrar"@, "l"@])
    } else {
        None
    }
}

fn words(a: &str, b: &str, c: &str, d: &str, n: usize) -> (r: Vec<String>)
    requires
        1 <= n <= 4,
    ensures
        r@.map_values(|w: String| w@) == seq![a@, b@, c@, d@].subrange(0, n as int),
{
    let mut r: Vec<String> = Vec::new();
    r.push(String::from_str(a));
    if n > 1 { r.push(String::from_str(b)); }
    if n > 2 { r.push(String::from_str(c)); }
    if n > 3 { r.push(String::from_str(d)); }
    assert(r@.map_values(|w: String| w@) =~= seq![a@, b@, c@, d@].subrange(0, n as int));
    r
}

/// The listing command for archive `p`, chosen by its name's ending.
pub fn archive_tool(p: &String) -> (r: Option<Vec<String>>)
    ensures
        match archive_command(p@) {
            Some(c) => r is Some && r->Some_0@.map_values(|w: String| w@) == c,
            None => r is None,
        },
{
    let s = p.as_str();
    let r = if text_ends_with(s, ".tar") || text_ends_with(s, ".tar.gz") || text_ends_with(s, ".tgz")
        || text_ends_with(s, ".tar.bz2") || text_ends_with(s, ".tar.xz") {
        Some(words("tar", "-tvf", "", "", 2))
    } else if text_ends_with(s, ".zip") || text_ends_with(s, ".jar") {
        Some(words("unzip", "-l", "", "", 2))
    } else if text_ends_with(s, ".gz") {
        Some(words("gzip", "-l", "", "", 2))
    } else if text_ends_with(s, ".xz") {
        Some(words("xz", "-l", "", "", 2))
    } else if text_ends_with(s, ".7z") {
        Some(words("7z", "l", "", "", 2))
    } else if text_ends_with(s, ".rar") {
        Some(words("unrar", "l", "", "", 2))
    } else {
        None
    };
    proof {
        if r is Some {
            assert(r->Some_0@.map_values(|w: String| w@) =~= archive_command(p@)->Some_0);
        }
    }
    r
}

fn command_exec(m: ViewMode, p: &String) -> (r: Option<Vec<String>>)
    ensures
        match command_for(m, p@) {
            Some(c) => r is Some && r->Some_0@.map_values(|w: String| w@) == c,
            None => r is None,
        },
{
    let r = match m {
        ViewMode::Disasm => Some(words("objdump", "-d", "-M", "intel", 4)),
        ViewMode::Strings => Some(words("strings", "-a", "", "", 2)),
        ViewMode::ElfHeader => Some(words("readelf", "-h", "", "", 2)),
        ViewMode::Sections => Some(words("readelf", "-S", "-W", "", 3)),
        ViewMode::Symbols => Some(words("readelf", "--syms", "-W", "", 3)),
        ViewMode::Ldd => Some(words("ldd", "", "", "", 1)),
        ViewMode::FileInfo => Some(words("file", "-b", "", "", 2)),
        ViewMode::Exif => Some(words("exiftool", "", "", "", 1)),
        ViewMode::Json => Some(words("jq", ".", "", "", 2)),
        ViewMode::Archive => return archive_tool(p),
        _ => None,
    };
    proof {
        if r is Some {
            assert(r->Some_0@.map_values(|w: String| w@) =~= command_for(m, p@)->Some_0);
        }
    }
    r
}


/// State of the file viewer. Content for the tool modes comes from external
/// programs: while `pending_tool` is set the caller runs
/// `pending_command()` on the file and hands the outcome to
/// `apply_tool_output`.
pub struct FileViewer {
    pub path: String,
    pub file_type: FileType,
    pub mode: ViewMode,
    pub content: Vec<String>,
    pub scroll_offset: usize,
    /// The file's bytes, at most 50 MiB of them.
    pub raw_bytes: Vec<u8>,
    pub error: Option<String>,
    /// Whether the file was larger than what was read.
    pub truncated: bool,
    /// The file's size before truncation.
    pub original_size: u64,
    /// Tool outputs already obtained, by mode.
    pub tool_cache: Vec<(ViewMode, Vec<String>)>,
    /// Whether the content of the current mode awaits a tool's output.
    pub pending_tool: bool,
}

/// What the cache holds for mode `m` (its first entry for `m`).
pub open spec fn cache_lookup(c: Seq<(ViewMode, Vec<String>)>, m: ViewMode, start: int) -> Option<Seq<String>>
    decreases c.len() - start,
{
    if start < 0 || start >= c.len() {
        None
    } else if c[start].0 == m {
        Some(c[start].1@)
    } else {
        cache_lookup(c, m, start + 1)
    }
}

pub open spec fn views(v: Seq<String>) -> Seq<Seq<char>> {
    v.map_values(|l: String| l@)
}

/// The viewer's content once mode `v.mode` is loaded: a cached tool output;
/// else the text lines or the hex dump; an archive of unknown kind gives an
/// error; any other mode awaits its tool.
pub open spec fn content_loaded(v: FileViewer, w: FileViewer) -> bool {
    &&& w.path == v.path && w.file_type == v.file_type && w.mode == v.mode
    &&& w.scroll_offset == v.scroll_offset && w.raw_bytes == v.raw_bytes
    &&& w.truncated == v.truncated && w.original_size == v.original_size
    &&& w.tool_cache == v.tool_cache
    &&& match cache_lookup(v.tool_cache@, v.mode, 0) {
        Some(c) => w.content@ == c && w.error is None && !w.pending_tool,
        None => match v.mode {
            ViewMode::Text => views(w.content@) == text_view(v.raw_bytes@) && w.error is None && !w.pending_tool,
            ViewMode::Hex => views(w.content@) == hex_dump(v.raw_bytes@) && w.error is None && !w.pending_tool,
            _ => if command_for(v.mode, v.path@) is None {
                w.content@.len() == 0 && w.error is Some && w.error->Some_0@ == "Unknown archive format"@ && !w.pending_tool
            } else {
                w.content@.len() == 0 && w.error is None && w.pending_tool
            },
        },
    }
}

/// The part of a file that is read: its first 50 MiB.
pub open spec fn read_part(b: Seq<u8>) -> Seq<u8> {
    if b.len() > MAX_FILE_SIZE { b.subrange(0, MAX_FILE_SIZE as int) } else { b }
}

pub open spec fn read_error(e: Seq<char>) -> Seq<char> {
    "Failed to read file: "@ + e
}

/// Text of the position shown in the status line: "top-bottom/total (p%)",
/// or "Empty".
pub open spec fn position_text(scroll: nat, height: nat, total: nat) -> Seq<char> {
    if total == 0 {
        "Empty"@
    } else {
        let bottom = if scroll + height < total { scroll + height } else { total };
        let percent = if total > height {
            let span = (total - height) as nat;
            (scroll * 100) / (if span > 1 { span } else { 1 })
        } else {
            100
        };
        decimal(scroll + 1) + "-"@ + decimal(bottom) + "/"@ + decimal(total) + " ("@ + decimal(percent) + "%)"@
    }
}

impl FileViewer {
    /// The file's lines, read as UTF-8 (invalid sequences replaced).
    pub fn load_text(&self) -> (r: Vec<String>)
        ensures
            views(r@) == text_view(self.raw_bytes@),
    {
        let text = lossy_text(&self.raw_bytes);
        split_lines(text.as_str())
    }

    /// The file's hex dump.
    pub fn load_hex(&self) -> (r: Vec<String>)
        ensures
            views(r@) == hex_dump(self.raw_bytes@),
    {
        hex_lines(&self.raw_bytes)
    }

    fn cached(&self) -> (r: Option<Vec<String>>)
        ensures
            match cache_lookup(self.tool_cache@, self.mode, 0) {
                Some(c) => r is Some && r->Some_0@ == c,
                None => r is None,
            },
    {
        let mut i: usize = 0;
        while i < self.tool_cache.len()
            invariant
                i <= self.tool_cache@.len(),
                cache_lookup(self.tool_cache@, self.mode, 0) == cache_lookup(self.tool_cache@, self.mode, i as int),
            decreases self.tool_cache@.len() - i,
        {
            if self.tool_cache[i].0 == self.mode {
                return Some(copy_lines(&self.tool_cache[i].1));
            }
            i = i + 1;
        }
        None
    }

    fn load_content_for_mode(&mut self)
        ensures
            content_loaded(*old(self), *final(self)),
    {
        self.error = None;
        self.pending_tool = false;
        match self.cached() {
            Some(c) => {
                self.content = c;
                return;
            }
            None => {}
        }
        match self.mode {
            ViewMode::Text => {
                self.content = self.load_text();
            }
            ViewMode::Hex => {
                self.content = self.load_hex();
            }
            _ => {
                self.content = Vec::new();
                match command_exec(self.mode, &self.path) {
                    Some(_) => {
                        self.pending_tool = true;
                    }
                    None => {
                        self.error = Some(String::from_str("Unknown archive format"));
                    }
                }
            }
        }
    }

    /// A viewer for file `path`, given its size as its metadata reports it
    /// and its content as read (or the errors met). At most 50 MiB are
    /// kept; the file's kind decides the opening mode, whose content is
    /// loaded.
    pub fn new(path: String, size: Result<u64, String>, bytes: Result<Vec<u8>, String>) -> (r: FileViewer)
        ensures
            r.path == path,
            r.scroll_offset == 0,
            r.tool_cache@.len() == 0,
            match size {
                Err(e) => r.error is Some && r.error->Some_0@ == read_error(e@) && r.content@.len() == 0
                    && r.mode == ViewMode::Text && r.file_type == FileType::Unknown && !r.pending_tool,
                Ok(n) => r.original_size == n && r.truncated == (n > MAX_FILE_SIZE) && match bytes {
                    Err(e) => r.error is Some && r.error->Some_0@ == read_error(e@) && r.content@.len() == 0
                        && r.mode == ViewMode::Text && r.file_type == FileType::Unknown && !r.pending_tool,
                    Ok(b) => r.raw_bytes@ == read_part(b@)
                        && r.file_type == kind_of(path@, read_part(b@))
                        && r.mode == default_mode(r.file_type)
                        && content_loaded(r, r),
                },
            },
    {
        let mut v = FileViewer {
            path,
            file_type: FileType::Unknown,
            mode: ViewMode::Text,
            content: Vec::new(),
            scroll_offset: 0,
            raw_bytes: Vec::new(),
            error: None,
            truncated: false,
            original_size: 0,
            tool_cache: Vec::new(),
            pending_tool: false,
        };
        let n = match size {
            Ok(n) => n,
            Err(e) => {
                let mut m = String::from_str("Failed to read file: ");
                m.append(e.as_str());
                v.error = Some(m);
                return v;
            }
        };
        v.original_size = n;
        v.truncated = n > MAX_FILE_SIZE as u64;
        match bytes {
            Ok(b) => {
                let mut b = b;
                if b.len() > MAX_FILE_SIZE {
                    b.truncate(MAX_FILE_SIZE);
                }
                v.file_type = detect_file_type(&v.path, &b);
                v.raw_bytes = b;
                v.mode = v.file_type.default_mode();
                v.load_content_for_mode();
                v
            }
            Err(e) => {
                let mut m = String::from_str("Failed to read file: ");
                m.append(e.as_str());
                v.error = Some(m);
                v
            }
        }
    }

    /// The command whose output the current mode awaits.
    pub fn pending_command(&self) -> (r: Option<Vec<String>>)
        ensures
            !self.pending_tool ==> r is None,
            self.pending_tool ==> match command_for(self.mode, self.path@) {
                Some(c) => r is Some && views(r->Some_0@) == c,
                None => r is None,
            },
    {
        if self.pending_tool { command_exec(self.mode, &self.path) } else { None }
    }

    /// Takes the outcome of the pending tool: its (capped) output lines or
    /// its error message. A failed `jq` falls back to parsing the JSON
    /// here. Output is cached for the mode. Without a pending tool nothing
    /// changes.
    pub fn apply_tool_output(&mut self, output: Result<Vec<String>, String>)
        ensures
            !old(self).pending_tool ==> *final(self) == *old(self),
            old(self).pending_tool ==> !final(self).pending_tool
                && final(self).mode == old(self).mode && final(self).path == old(self).path
                && final(self).raw_bytes == old(self).raw_bytes
                && match output {
                    Ok(lines) => final(self).content@ == lines@ && final(self).error is None
                        && final(self).tool_cache@ == old(self).tool_cache@.push((old(self).mode, final(self).tool_cache@.last().1))
                        && final(self).tool_cache@.last().1@ == lines@,
                    Err(e) => if old(self).mode == ViewMode::Json {
                        final(self).error is None
                            && (!json_parses(lossy_text_of(old(self).raw_bytes@)) ==> views(final(self).content@) == json_error_view(old(self).raw_bytes@))
                    } else {
                        final(self).content@.len() == 0 && final(self).error == Some(e) && final(self).tool_cache == old(self).tool_cache
                    },
                },
    {
        if !self.pending_tool {
            return;
        }
        self.pending_tool = false;
        let out = match output {
            Ok(lines) => Ok(lines),
            Err(e) => if self.mode == ViewMode::Json { Ok(json_lines(&self.raw_bytes)) } else { Err(e) },
        };
        match out {
            Ok(lines) => {
                let copy = copy_lines(&lines);
                self.tool_cache.push((self.mode, copy));
                self.content = lines;
                self.error = None;
            }
            Err(e) => {
                self.error = Some(e);
                self.content = Vec::new();
            }
        }
    }

    /// Switches to `mode` at the top and loads its content; the current
    /// mode changes nothing.
    pub fn set_mode(&mut self, mode: ViewMode)
        ensures
            mode == old(self).mode ==> *final(self) == *old(self),
            mode != old(self).mode ==> final(self).mode == mode && final(self).scroll_offset == 0
                && content_loaded(FileViewer { mode, scroll_offset: 0, ..*old(self) }, *final(self)),
    {
        if self.mode != mode {
            self.mode = mode;
            self.scroll_offset = 0;
            self.load_content_for_mode();
        }
    }

    /// Scrolls up by `n` lines, stopping at the top.
    pub fn scroll_up(&mut self, n: usize)
        ensures
            final(self).scroll_offset == if old(self).scroll_offset >= n { (old(self).scroll_offset - n) as usize } else { 0usize },
            final(self).content == old(self).content,
            final(self).mode == old(self).mode,
    {
        self.scroll_offset = if self.scroll_offset >= n { self.scroll_offset - n } else { 0 };
    }

    /// Scrolls down by `n` lines, stopping where the last line is at the
    /// bottom of a view `visible_height` lines tall.
    pub fn scroll_down(&mut self, n: usize, visible_height: usize)
        ensures
            ({
                let len = old(self).content@.len();
                let max: int = if len >= visible_height { len - visible_height } else { 0 };
                final(self).scroll_offset == if old(self).scroll_offset + n < max { old(self).scroll_offset + n } else { max }
            }),
            final(self).content == old(self).content,
            final(self).mode == old(self).mode,
    {
        let len = self.content.len();
        let max = if len >= visible_height { len - visible_height } else { 0 };
        self.scroll_offset = if self.scroll_offset < max && n < max - self.scroll_offset { self.scroll_offset + n } else { max };
    }

    pub fn scroll_to_top(&mut self)
        ensures
            final(self).scroll_offset == 0,
            final(self).content == old(self).content,
            final(self).mode == old(self).mode,
    {
        self.scroll_offset = 0;
    }

    pub fn scroll_to_bottom(&mut self, visible_height: usize)
        ensures
            final(self).scroll_offset == if old(self).content@.len() >= visible_height { (old(self).content@.len() - visible_height) as usize } else { 0usize },
            final(self).content == old(self).content,
            final(self).mode == old(self).mode,
    {
        let len = self.content.len();
        self.scroll_offset = if len >= visible_height { len - visible_height } else { 0 };
    }

    /// The lines in a view `height` lines tall at the current offset.
    pub fn visible_lines(&self, height: usize) -> (r: &[String])
        ensures
            ({
                let len = self.content@.len();
                let start = self.scroll_offset as int;
                let end: int = if start + height < len { start + height } else { len as int };
                r@ == if start < len { self.content@.subrange(start, end) } else { seq![] }
            }),
    {
        let len = self.content.len();
        let start = self.scroll_offset;
        if start < len {
            let end = if height < len - start { start + height } else { len };
            &self.content.as_slice()[start..end]
        } else {
            let empty: &[String] = &[];
            assert(empty@ =~= Seq::<String>::empty());
            empty
        }
    }

    /// The view modes offered for this file.
    pub fn available_modes(&self) -> (r: Vec<ViewMode>)
        ensures
            r@ == modes_of(self.file_type),
    {
        self.file_type.available_modes()
    }

    /// Number of bytes held.
    pub fn file_size(&self) -> (r: usize)
        ensures
            r == self.raw_bytes@.len(),
    {
        self.raw_bytes.len()
    }

    /// Position text for the status line (see `position_text`).
    pub fn position_info(&self, visible_height: usize) -> (r: String)
        ensures
            r@ == position_text(self.scroll_offset as nat, visible_height as nat, self.content@.len()),
    {
        let total = self.content.len() as u128;
        if total == 0 {
            return String::from_str("Empty");
        }
        let scroll = self.scroll_offset as u128;
        let h = visible_height as u128;
        let bottom = if scroll + h < total { scroll + h } else { total };
        let percent = if total > h {
            let span = total - h;
            (scroll * 100) / (if span > 1 { span } else { 1 })
        } else {
            100
        };
        let mut s = String::new();
        push_decimal(&mut s, scroll + 1);
        s.append("-");
        push_decimal(&mut s, bottom);
        s.append("/");
        push_decimal(&mut s, total);
        s.append(" (");
        push_decimal(&mut s, percent);
        s.append("%)");
        assert(s@ =~= position_text(self.scroll_offset as nat, visible_height as nat, self.content@.len()));
        s
    }
}

} // verus!
