//! The scratch area of one session: a unique identifier and the file names
//! derived from it.

use vstd::prelude::*;
use vstd::string::*;

verus! {

/// The host platform, which decides how the artifact is named and started and
/// which side products the compiler leaves behind.
#[derive(Clone, Copy, Debug, PartialEq, Eq, Structural)]
pub enum Platform {
    Unix,
    Windows,
}

/// Length of a session identifier in characters.
pub const IDENTIFIER_LEN: usize = 36;

/// Whether `c` is a lower-case hexadecimal digit.
pub open spec fn is_lower_hex(c: char) -> bool {
    ('0' <= c && c <= '9') || ('a' <= c && c <= 'f')
}

/// Whether position `i` of an identifier holds a hyphen.
pub open spec fn is_hyphen_position(i: int) -> bool {
    i == 8 || i == 13 || i == 18 || i == 23
}

/// A session identifier: 36 characters, hyphens at positions 8, 13, 18 and
/// 23, lower-case hexadecimal digits everywhere else.
pub open spec fn is_identifier(s: Seq<char>) -> bool {
    &&& s.len() == 36
    &&& forall|i: int|
        0 <= i < 36 ==> if is_hyphen_position(i) {
            #[trigger] s[i] == '-'
        } else {
            is_lower_hex(s[i])
        }
}

/// Path of the source file of the session named `id`.
pub open spec fn source_path_of(id: Seq<char>) -> Seq<char> {
    "temp/temp_"@ + id + ".rs"@
}

/// Path the compiler is told to write the artifact to.
pub open spec fn artifact_path_of(id: Seq<char>, platform: Platform) -> Seq<char> {
    match platform {
        Platform::Unix => "temp/temp_"@ + id,
        Platform::Windows => "temp/temp_"@ + id + ".exe"@,
    }
}

/// Path by which the artifact is started.
pub open spec fn run_path_of(id: Seq<char>, platform: Platform) -> Seq<char> {
    match platform {
        Platform::Unix => "./temp/temp_"@ + id,
        Platform::Windows => ".\\temp\\temp_"@ + id + ".exe"@,
    }
}

/// Path of the debug-symbol file that the compiler leaves beside the
/// artifact, on platforms where it does.
pub open spec fn symbols_path_of(id: Seq<char>, platform: Platform) -> Option<Seq<char>> {
    match platform {
        Platform::Unix => None,
        Platform::Windows => Some("temp/temp_"@ + id + ".pdb"@),
    }
}

/// Every file a session may leave in the scratch directory, in the order in
/// which teardown removes them.
pub open spec fn scratch_files_of(id: Seq<char>, platform: Platform) -> Seq<Seq<char>> {
    match symbols_path_of(id, platform) {
        None => seq![source_path_of(id), artifact_path_of(id, platform)],
        Some(symbols) => seq![source_path_of(id), artifact_path_of(id, platform), symbols],
    }
}

/// Name of the scratch directory shared by all sessions.
pub fn scratch_directory() -> (dir: String)
    ensures
        dir@ == "temp"@,
{
    String::from_str("temp")
}

/// Name of the compiler executable.
pub fn compiler_program() -> (program: String)
    ensures
        program@ == "rustc"@,
{
    String::from_str("rustc")
}

/// Arguments of the compiler run of the session named `id`: the source path,
/// the output flag and the artifact path.
pub open spec fn compiler_arguments_of(id: Seq<char>, platform: Platform) -> Seq<Seq<char>> {
    seq![source_path_of(id), "-o"@, artifact_path_of(id, platform)]
}

/// Draws a fresh identifier with `uuid::Uuid::new_v4` and renders it through
/// the type's `Display`, which writes the hyphenated lower-case form. The
/// contract claims that form and nothing about which identifier comes out.
#[verifier::external_body]
fn fresh_identifier() -> (id: String)
    ensures
        is_identifier(id@),
{
    uuid::Uuid::new_v4().to_string()
}

fn is_lower_hex_char(c: char) -> (yes: bool)
    ensures
        yes == is_lower_hex(c),
{
    ('0' <= c && c <= '9') || ('a' <= c && c <= 'f')
}

/// Decides whether `text` has the shape of a session identifier.
pub fn check_identifier(text: &str) -> (valid: bool)
    ensures
        valid == is_identifier(text@),
{
    if text.unicode_len() != IDENTIFIER_LEN {
        return false;
    }
    let mut i: usize = 0;
    while i < IDENTIFIER_LEN
        invariant
            i <= IDENTIFIER_LEN,
            text@.len() == 36,
            forall|k: int|
                0 <= k < i ==> if is_hyphen_position(k) {
                    #[trigger] text@[k] == '-'
                } else {
                    is_lower_hex(text@[k])
                },
        decreases IDENTIFIER_LEN - i,
    {
        let c = text.get_char(i);
        let fits = if i == 8 || i == 13 || i == 18 || i == 23 {
            c == '-'
        } else {
            is_lower_hex_char(c)
        };
        if !fits {
            return false;
        }
        i = i + 1;
    }
    true
}

/// The scratch area owned by one session.
#[derive(Debug)]
pub struct Workspace {
    id: String,
    platform: Platform,
}

impl Workspace {
    /// The identifier that names this workspace.
    pub closed spec fn id(&self) -> Seq<char> {
        self.id@
    }

    /// The platform this workspace was laid out for.
    pub closed spec fn platform(&self) -> Platform {
        self.platform
    }

    /// The invariant of a workspace: it is named by a session identifier.
    pub open spec fn well_formed(&self) -> bool {
        is_identifier(self.id())
    }

    /// Allocates a workspace under a freshly drawn identifier.
    pub fn prepare(platform: Platform) -> (workspace: Workspace)
        ensures
            workspace.well_formed(),
            workspace.platform() == platform,
    {
        Workspace { id: fresh_identifier(), platform }
    }

    /// Lays out a workspace under a given identifier, or refuses a text that
    /// is not one.
    pub fn adopt(id: String, platform: Platform) -> (workspace: Option<Workspace>)
        ensures
            workspace is Some <==> is_identifier(id@),
            workspace matches Some(w) ==> w.well_formed() && w.id() == id@ && w.platform()
                == platform,
    {
        if check_identifier(id.as_str()) {
            Some(Workspace { id, platform })
        } else {
            None
        }
    }

    /// The identifier as text.
    pub fn identifier(&self) -> (id: String)
        ensures
            id@ == self.id(),
    {
        self.id.clone()
    }

    /// The platform this workspace was laid out for.
    pub fn target(&self) -> (platform: Platform)
        ensures
            platform == self.platform(),
    {
        self.platform
    }

    /// Path of the source file.
    pub fn source_path(&self) -> (path: String)
        ensures
            path@ == source_path_of(self.id()),
    {
        let mut path = String::from_str("temp/temp_");
        path.append(self.id.as_str());
        path.append(".rs");
        path
    }

    /// Path the compiler writes the artifact to.
    pub fn artifact_path(&self) -> (path: String)
        ensures
            path@ == artifact_path_of(self.id(), self.platform()),
    {
        let mut path = String::from_str("temp/temp_");
        path.append(self.id.as_str());
        match self.platform {
            Platform::Unix => {},
            Platform::Windows => {
                path.append(".exe");
            },
        }
        path
    }

    /// Path by which the artifact is started.
    pub fn run_path(&self) -> (path: String)
        ensures
            path@ == run_path_of(self.id(), self.platform()),
    {
        match self.platform {
            Platform::Unix => {
                let mut path = String::from_str("./temp/temp_");
                path.append(self.id.as_str());
                path
            },
            Platform::Windows => {
                let mut path = String::from_str(".\\temp\\temp_");
                path.append(self.id.as_str());
                path.append(".exe");
                path
            },
        }
    }

    /// Path of the debug-symbol file, where the platform has one.
    pub fn symbols_path(&self) -> (path: Option<String>)
        ensures
            path.deep_view() == symbols_path_of(self.id(), self.platform()),
    {
        match self.platform {
            Platform::Unix => None,
            Platform::Windows => {
                let mut path = String::from_str("temp/temp_");
                path.append(self.id.as_str());
                path.append(".pdb");
                Some(path)
            },
        }
    }

    /// The files that teardown removes, in order.
    pub fn scratch_files(&self) -> (files: Vec<String>)
        ensures
            files.deep_view() == scratch_files_of(self.id(), self.platform()),
    {
        let mut files: Vec<String> = Vec::new();
        files.push(self.source_path());
        files.push(self.artifact_path());
        match self.symbols_path() {
            None => {},
            Some(symbols) => {
                files.push(symbols);
            },
        }
        assert(files.deep_view() =~= scratch_files_of(self.id(), self.platform()));
        files
    }

    /// The arguments handed to the compiler.
    pub fn compiler_arguments(&self) -> (arguments: Vec<String>)
        ensures
            arguments.deep_view() == compiler_arguments_of(self.id(), self.platform()),
    {
        let mut arguments: Vec<String> = Vec::new();
        arguments.push(self.source_path());
        arguments.push(String::from_str("-o"));
        arguments.push(self.artifact_path());
        assert(arguments.deep_view() =~= compiler_arguments_of(self.id(), self.platform()));
        arguments
    }
}

proof fn lemma_framed_names_differ(
    prefix: Seq<char>,
    a: Seq<char>,
    tail_a: Seq<char>,
    b: Seq<char>,
    tail_b: Seq<char>,
)
    requires
        a.len() == b.len(),
        a != b,
    ensures
        prefix + a + tail_a != prefix + b + tail_b,
{
    if prefix + a + tail_a == prefix + b + tail_b {
        assert forall|k: int| 0 <= k < a.len() implies a[k] == b[k] by {
            assert((prefix + a + tail_a)[prefix.len() + k] == a[k]);
            assert((prefix + b + tail_b)[prefix.len() + k] == b[k]);
        }
        assert(a =~= b);
    }
}

proof fn lemma_scratch_file_shape(id: Seq<char>, platform: Platform, i: int)
    requires
        0 <= i < scratch_files_of(id, platform).len(),
    ensures
        exists|tail: Seq<char>| #[trigger]
            scratch_files_of(id, platform)[i] == "temp/temp_"@ + id + tail,
{
    let prefix = "temp/temp_"@;
    let files = scratch_files_of(id, platform);
    if i == 0 {
        assert(files[i] == prefix + id + ".rs"@);
    } else if i == 1 {
        match platform {
            Platform::Unix => {
                assert(prefix + id =~= prefix + id + Seq::<char>::empty());
                assert(files[i] == prefix + id + Seq::<char>::empty());
            },
            Platform::Windows => {
                assert(files[i] == prefix + id + ".exe"@);
            },
        }
    } else {
        assert(files[i] == prefix + id + ".pdb"@);
    }
}

/// Sessions named by different identifiers share no scratch file, whatever
/// their platforms: the file names of one never occur among those of the
/// other.
pub proof fn law_distinct_sessions_share_no_file(
    a: Seq<char>,
    platform_a: Platform,
    b: Seq<char>,
    platform_b: Platform,
)
    requires
        is_identifier(a),
        is_identifier(b),
        a != b,
    ensures
        forall|i: int, j: int|
            0 <= i < scratch_files_of(a, platform_a).len() && 0 <= j < scratch_files_of(
                b,
                platform_b,
            ).len() ==> #[trigger] scratch_files_of(a, platform_a)[i] != #[trigger] scratch_files_of(
                b,
                platform_b,
            )[j],
{
    let prefix = "temp/temp_"@;
    assert forall|i: int, j: int|
        0 <= i < scratch_files_of(a, platform_a).len() && 0 <= j < scratch_files_of(
            b,
            platform_b,
        ).len() implies #[trigger] scratch_files_of(a, platform_a)[i] != #[trigger] scratch_files_of(
        b,
        platform_b,
    )[j] by {
        lemma_scratch_file_shape(a, platform_a, i);
        lemma_scratch_file_shape(b, platform_b, j);
        let tail_a = choose|tail: Seq<char>| #[trigger]
            scratch_files_of(a, platform_a)[i] == prefix + a + tail;
        let tail_b = choose|tail: Seq<char>| #[trigger]
            scratch_files_of(b, platform_b)[j] == prefix + b + tail;
        lemma_framed_names_differ(prefix, a, tail_a, b, tail_b);
    }
}

/// The scratch files of one session are pairwise different, so teardown
/// names each of them once.
pub proof fn law_scratch_files_distinct(id: Seq<char>, platform: Platform)
    ensures
        scratch_files_of(id, platform).no_duplicates(),
{
    reveal_strlit("temp/temp_");
    reveal_strlit(".rs");
    reveal_strlit(".exe");
    reveal_strlit(".pdb");
    let prefix = "temp/temp_"@;
    let files = scratch_files_of(id, platform);
    let source = prefix + id + ".rs"@;
    assert(source.len() == id.len() + 13);
    match platform {
        Platform::Unix => {
            assert(files[1].len() == id.len() + 10);
        },
        Platform::Windows => {
            let artifact = prefix + id + ".exe"@;
            let symbols = prefix + id + ".pdb"@;
            assert(artifact.len() == id.len() + 14);
            assert(symbols.len() == id.len() + 14);
            let at: int = id.len() as int + 11;
            assert(artifact[at] == 'e');
            assert(symbols[at] == 'p');
        },
    }
}

} // verus!
