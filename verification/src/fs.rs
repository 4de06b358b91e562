//! The file system plugin: the commands it offers to widgets, and their
//! inputs and outputs. Paths are relative to the calling widget's directory.

use vstd::prelude::*;

verus! {

/// The name of the file system plugin.
pub const FS_PLUGIN_NAME: &'static str = "fs";

/// Append text to a file, creating it and its parent directories as needed.
#[derive(Debug)]
pub struct AppendFile;

impl AppendFile {
    /// The command name.
    pub fn name(&self) -> (r: &'static str)
        ensures
            r@ == "append_file"@,
    {
        "append_file"
    }
}

/// Create a directory, with its parents when asked to.
#[derive(Debug)]
pub struct CreateDir;

impl CreateDir {
    /// The command name.
    pub fn name(&self) -> (r: &'static str)
        ensures
            r@ == "create_dir"@,
    {
        "create_dir"
    }
}

/// Whether a path exists.
#[derive(Debug)]
pub struct Exists;

impl Exists {
    /// The command name.
    pub fn name(&self) -> (r: &'static str)
        ensures
            r@ == "exists"@,
    {
        "exists"
    }
}

/// Whether a path is a directory.
#[derive(Debug)]
pub struct IsDir;

impl IsDir {
    /// The command name.
    pub fn name(&self) -> (r: &'static str)
        ensures
            r@ == "is_dir"@,
    {
        "is_dir"
    }
}

/// Whether a path is a file.
#[derive(Debug)]
pub struct IsFile;

impl IsFile {
    /// The command name.
    pub fn name(&self) -> (r: &'static str)
        ensures
            r@ == "is_file"@,
    {
        "is_file"
    }
}

/// Read a file as text.
#[derive(Debug)]
pub struct ReadFile;

impl ReadFile {
    /// The command name.
    pub fn name(&self) -> (r: &'static str)
        ensures
            r@ == "read_file"@,
    {
        "read_file"
    }
}

/// Remove a directory with all its contents.
#[derive(Debug)]
pub struct RemoveDir;

impl RemoveDir {
    /// The command name.
    pub fn name(&self) -> (r: &'static str)
        ensures
            r@ == "remove_dir"@,
    {
        "remove_dir"
    }
}

/// Remove a file.
#[derive(Debug)]
pub struct RemoveFile;

impl RemoveFile {
    /// The command name.
    pub fn name(&self) -> (r: &'static str)
        ensures
            r@ == "remove_file"@,
    {
        "remove_file"
    }
}

/// Write text to a file, creating its parent directories as needed.
#[derive(Debug)]
pub struct WriteFile;

impl WriteFile {
    /// The command name.
    pub fn name(&self) -> (r: &'static str)
        ensures
            r@ == "write_file"@,
    {
        "write_file"
    }
}

/// Input of [`AppendFile`].
#[derive(Debug)]
pub struct AppendFileInput {
    pub path: String,
    pub content: String,
}

/// Output of [`AppendFile`].
#[derive(Debug)]
pub struct AppendFileOutput {
    pub success: bool,
}

/// Input of [`CreateDir`].
#[derive(Debug)]
pub struct CreateDirInput {
    pub path: String,
    /// Whether to create missing parent directories too, and to accept a
    /// directory that already exists (default: yes).
    pub recursive: Option<bool>,
}

impl CreateDirInput {
    /// Whether missing parent directories are created too: unless the input
    /// asks otherwise, they are.
    pub fn is_recursive(&self) -> (b: bool)
        ensures
            b == (self.recursive != Some(false)),
    {
        match self.recursive {
            Some(r) => r,
            None => true,
        }
    }
}

/// Output of [`CreateDir`].
#[derive(Debug)]
pub struct CreateDirOutput {
    pub success: bool,
}

/// Input of [`Exists`].
#[derive(Debug)]
pub struct ExistsInput {
    pub path: String,
}

/// Output of [`Exists`]; widgets receive the bare boolean.
#[derive(Debug)]
pub struct ExistsOutput {
    pub exists: bool,
}

/// Input of [`IsDir`].
#[derive(Debug)]
pub struct IsDirInput {
    pub path: String,
}

/// Output of [`IsDir`].
#[derive(Debug)]
pub struct IsDirOutput {
    pub is_dir: bool,
}

/// Input of [`IsFile`].
#[derive(Debug)]
pub struct IsFileInput {
    pub path: String,
}

/// Output of [`IsFile`].
#[derive(Debug)]
pub struct IsFileOutput {
    pub is_file: bool,
}

/// Input of [`ReadFile`].
#[derive(Debug)]
pub struct ReadFileInput {
    pub path: String,
}

/// Output of [`ReadFile`]; widgets receive the bare text.
#[derive(Debug)]
pub struct ReadFileOutput {
    pub content: String,
}

/// Input of [`RemoveDir`].
#[derive(Debug)]
pub struct RemoveDirInputPayload {
    pub path: String,
}

/// Input of [`RemoveFile`].
#[derive(Debug)]
pub struct RemoveFileInput {
    pub path: String,
}

/// Output of [`RemoveFile`].
#[derive(Debug)]
pub struct RemoveFileOutput {
    pub success: bool,
}

/// Input of [`WriteFile`].
#[derive(Debug)]
pub struct WriteFileInput {
    pub path: String,
    pub content: String,
}

/// Output of [`WriteFile`].
#[derive(Debug)]
pub struct WriteFileOutput {
    pub success: bool,
}

/// The file system plugin, offering file and directory operations to widgets
/// within their own directories.
#[derive(Debug)]
pub struct FsPlugin;

/// The commands of the file system plugin, in registration order.
pub open spec fn fs_command_names() -> Seq<Seq<char>> {
    seq![
        "append_file"@,
        "create_dir"@,
        "exists"@,
        "is_dir"@,
        "is_file"@,
        "read_file"@,
        "remove_dir"@,
        "remove_file"@,
        "write_file"@,
    ]
}

impl FsPlugin {
    /// The plugin name.
    pub fn name(&self) -> (r: &'static str)
        ensures
            r@ == FS_PLUGIN_NAME@,
    {
        FS_PLUGIN_NAME
    }

    /// The names of the plugin's commands, in registration order.
    pub fn command_names(&self) -> (names: Vec<String>)
        ensures
            names@.map_values(|n: String| n@) == fs_command_names(),
    {
        let names = vec![
            String::from_str(AppendFile.name()),
            String::from_str(CreateDir.name()),
            String::from_str(Exists.name()),
            String::from_str(IsDir.name()),
            String::from_str(IsFile.name()),
            String::from_str(ReadFile.name()),
            String::from_str(RemoveDir.name()),
            String::from_str(RemoveFile.name()),
            String::from_str(WriteFile.name()),
        ];
        assert(names@.map_values(|n: String| n@) =~= fs_command_names());
        names
    }
}

/// A path separator: `/`, and on Windows also `\\`.
pub open spec fn is_separator(c: char, windows: bool) -> bool {
    c == '/' || (windows && c == '\\')
}

/// Whether `c` is a path separator.
pub fn char_is_separator(c: char, windows: bool) -> (b: bool)
    ensures
        b == is_separator(c, windows),
{
    c == '/' || (windows && c == '\\')
}

/// An ASCII letter, as a Windows drive is named.
pub open spec fn is_drive_letter(c: char) -> bool {
    ('a' <= c && c <= 'z') || ('A' <= c && c <= 'Z')
}

/// A path that does not start from the directory it is joined to: one that
/// starts at a root, or on Windows one that names a drive (`C:`).
pub open spec fn rooted(p: Seq<char>, windows: bool) -> bool {
    ||| (p.len() > 0 && is_separator(p[0], windows))
    ||| (windows && p.len() >= 2 && is_drive_letter(p[0]) && p[1] == ':')
}

/// What the path component being read is so far.
#[derive(Clone, Copy, Debug, PartialEq, Eq, Structural)]
pub enum ComponentKind {
    /// Nothing read yet.
    Empty,
    /// `.`
    Dot,
    /// `..`
    DotDot,
    /// A name.
    Name,
}

/// The component after one more character that is not a separator.
pub open spec fn grow(k: ComponentKind, c: char) -> ComponentKind {
    match k {
        ComponentKind::Empty => if c == '.' {
            ComponentKind::Dot
        } else {
            ComponentKind::Name
        },
        ComponentKind::Dot => if c == '.' {
            ComponentKind::DotDot
        } else {
            ComponentKind::Name
        },
        _ => ComponentKind::Name,
    }
}

/// A finished component applied to the depth below the start and to whether
/// the path has left the start: a name goes down one level, `..` goes up
/// one (leaving the start from depth 0), and an empty component or `.` stays.
pub open spec fn close(depth: nat, left: bool, k: ComponentKind) -> (nat, bool) {
    match k {
        ComponentKind::Name => (depth + 1, left),
        ComponentKind::DotDot => if depth == 0 {
            (0, true)
        } else {
            ((depth - 1) as nat, left)
        },
        _ => (depth, left),
    }
}

/// Reading a path character by character: the depth below the start, whether
/// it has left the start, and the component being read.
pub open spec fn walk(p: Seq<char>, windows: bool) -> (nat, bool, ComponentKind)
    decreases p.len(),
{
    if p.len() == 0 {
        (0, false, ComponentKind::Empty)
    } else {
        let (d, l, k) = walk(p.drop_last(), windows);
        let c = p.last();
        if is_separator(c, windows) {
            let (d2, l2) = close(d, l, k);
            (d2, l2, ComponentKind::Empty)
        } else {
            (d, l, grow(k, c))
        }
    }
}

/// The path climbs above the start through its `..` components.
pub open spec fn climbs_out(p: Seq<char>, windows: bool) -> bool {
    let (d, l, k) = walk(p, windows);
    close(d, l, k).1
}

/// A path that leads out of the directory it is joined to.
pub open spec fn escapes_dir(p: Seq<char>, windows: bool) -> bool {
    rooted(p, windows) || climbs_out(p, windows)
}

/// Check that a command's path stays within the widget's directory on the
/// platform at hand (`windows` tells which separators and prefixes count).
pub fn check_path(path: &str, windows: bool) -> (r: Result<(), String>)
    ensures
        r is Ok <==> !escapes_dir(path@, windows),
        r matches Err(e) ==> e@ == "Path escapes the widget directory: "@ + path@,
{
    let n = path.unicode_len();
    let mut is_rooted = n > 0 && char_is_separator(path.get_char(0), windows);
    if windows && n >= 2 {
        let c = path.get_char(0);
        if (('a' <= c && c <= 'z') || ('A' <= c && c <= 'Z')) && path.get_char(1) == ':' {
            is_rooted = true;
        }
    }
    let mut depth: usize = 0;
    let mut left = false;
    let mut kind = ComponentKind::Empty;
    let mut i: usize = 0;
    assert(path@.take(0) =~= Seq::<char>::empty());
    while i < n
        invariant
            n == path@.len(),
            i <= n,
            depth <= i,
            (depth as nat, left, kind) == walk(path@.take(i as int), windows),
        decreases n - i,
    {
        let c = path.get_char(i);
        assert(path@.take(i + 1).drop_last() =~= path@.take(i as int));
        assert(path@.take(i + 1).last() == c);
        if char_is_separator(c, windows) {
            match kind {
                ComponentKind::Name => {
                    depth = depth + 1;
                },
                ComponentKind::DotDot => {
                    if depth == 0 {
                        left = true;
                    } else {
                        depth = depth - 1;
                    }
                },
                _ => {},
            }
            kind = ComponentKind::Empty;
        } else {
            kind = match kind {
                ComponentKind::Empty => if c == '.' {
                    ComponentKind::Dot
                } else {
                    ComponentKind::Name
                },
                ComponentKind::Dot => if c == '.' {
                    ComponentKind::DotDot
                } else {
                    ComponentKind::Name
                },
                _ => ComponentKind::Name,
            };
        }
        i = i + 1;
    }
    assert(path@.take(n as int) =~= path@);
    match kind {
        ComponentKind::DotDot => {
            if depth == 0 {
                left = true;
            }
        },
        _ => {},
    }
    if is_rooted || left {
        let mut e = String::from_str("Path escapes the widget directory: ");
        e.append(path);
        Err(e)
    } else {
        Ok(())
    }
}

} // verus!
