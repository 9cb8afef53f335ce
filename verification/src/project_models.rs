//! Versioned local project locators and persisted project preferences.

use vstd::prelude::*;

use crate::paths::{
    file_name_of, file_stem_of, is_absolute_path, is_absolute_spec, join_paths, parent_of,
    final_segment, is_clean_absolute, is_plain_segment, path_file_name, plain_parent, path_file_stem, path_join,
    path_parent, path_strip_prefix, path_with_file_name, strictly_below, strip_prefix_of,
    tail_below, with_file_name_of,
};
use crate::text::{
    chars_of, contains_char, decimal_digits, ends_with_spec, ends_with_text, is_ascii_hex, is_blank,
    is_blank_text, push_decimal, push_str, text_equals, trim_text, trimmed, utf8_len,
    utf8_len_exceeds,
};

verus! {

/// Version written into local projects and preferences.
pub const LOCAL_PROJECT_VERSION: u32 = 1;

/// Longest locator accepted, in UTF-8 bytes.
pub const MAX_LOCATOR_BYTES: usize = 8192;

/// File-name suffix of a local project.
pub open spec fn project_suffix() -> Seq<char> {
    ".strata-project"@
}

/// The `kind` tag of a local project.
pub open spec fn project_kind() -> Seq<char> {
    "strata_local_project"@
}

/// A local convenience locator. The referenced session remains source-free.
#[derive(Clone, Debug)]
pub struct LocalProjectFile {
    pub kind: String,
    pub version: u32,
    pub session_bundle: String,
    pub source: String,
    pub signature_pack: Option<LocalSignaturePack>,
}

/// A signature pack next to a project, with the digest it must have.
#[derive(Clone, Debug)]
pub struct LocalSignaturePack {
    pub path: String,
    pub sha256: String,
}

/// Preferences kept between runs.
#[derive(Clone, Debug)]
pub struct ProjectPreferences {
    pub version: u32,
    pub reopen_last_project: bool,
    pub last_project_path: String,
    pub default_signature_pack_path: String,
}

/// A locator is refused when it is blank, longer than the byte limit, or
/// holds a NUL, carriage return or line feed.
pub open spec fn locator_is_unsafe(locator: Seq<char>) -> bool {
    ||| is_blank(locator)
    ||| utf8_len(locator) > MAX_LOCATOR_BYTES
    ||| locator.contains('\0')
    ||| locator.contains('\r')
    ||| locator.contains('\n')
}

/// The message for a refused locator with the given label.
pub open spec fn locator_message(label: Seq<char>) -> Seq<char> {
    label + " locator is empty, oversized, or unsafe"@
}

/// A SHA-256 digest written as exactly 64 hexadecimal digits.
pub open spec fn sha256_is_valid(digest: Seq<char>) -> bool {
    digest.len() == 64 && forall|i: int| 0 <= i < 64 ==> is_ascii_hex(#[trigger] digest[i])
}

/// Why a local project is invalid, as its message; `None` when it is valid.
pub open spec fn project_fault(project: LocalProjectFile) -> Option<Seq<char>> {
    if project.kind@ != project_kind() {
        Some("not a Strata local project"@)
    } else if project.version != LOCAL_PROJECT_VERSION {
        Some("unsupported local project version "@ + decimal_digits(project.version as nat))
    } else if locator_is_unsafe(project.session_bundle@) {
        Some(locator_message("session bundle"@))
    } else if locator_is_unsafe(project.source@) {
        Some(locator_message("source"@))
    } else {
        match project.signature_pack {
            Some(pack) => if locator_is_unsafe(pack.path@) {
                Some(locator_message("signature pack"@))
            } else if !sha256_is_valid(pack.sha256@) {
                Some("signature-pack SHA-256 must contain 64 hexadecimal digits"@)
            } else {
                None
            },
            None => None,
        }
    }
}

/// Why preferences are invalid, as its message; `None` when they are valid.
pub open spec fn preferences_fault(preferences: ProjectPreferences) -> Option<Seq<char>> {
    if preferences.version != LOCAL_PROJECT_VERSION {
        Some("unsupported project preferences version "@ + decimal_digits(preferences.version as nat))
    } else if !is_blank(preferences.last_project_path@) && locator_is_unsafe(
        preferences.last_project_path@,
    ) {
        Some(locator_message("last project"@))
    } else if !is_blank(preferences.default_signature_pack_path@) && locator_is_unsafe(
        preferences.default_signature_pack_path@,
    ) {
        Some(locator_message("default signature pack"@))
    } else if preferences.reopen_last_project && is_blank(preferences.last_project_path@) {
        Some("reopen-last-project requires a project path"@)
    } else {
        None
    }
}

/// A path made absolute against the working directory.
pub open spec fn absolutized(path: Seq<char>, working_directory: Seq<char>) -> Seq<char> {
    if is_absolute_spec(path) {
        path
    } else {
        path_join(working_directory, path)
    }
}

/// The directory that a project's locators are relative to: its parent, or
/// `.` when it has none.
pub open spec fn locator_base(project_path: Seq<char>) -> Seq<char> {
    match path_parent(project_path) {
        Some(parent) => if parent.len() > 0 {
            parent
        } else {
            "."@
        },
        None => "."@,
    }
}

/// The locator written for `path`: relative to `base` where it lies under
/// it, else the path itself.
pub open spec fn locator_spec(path: Seq<char>, base: Seq<char>) -> Seq<char> {
    match path_strip_prefix(path, base) {
        Some(rest) => rest,
        None => path,
    }
}

/// The path that a locator of a project stands for.
pub open spec fn resolved_spec(project_path: Seq<char>, locator: Seq<char>) -> Seq<char> {
    if is_absolute_spec(locator) {
        locator
    } else {
        path_join(locator_base(project_path), locator)
    }
}

/// Whether the path names a local project file.
pub open spec fn is_local_project_spec(path: Seq<char>) -> bool {
    match path_file_name(path) {
        Some(name) => ends_with_spec(name, project_suffix()),
        None => false,
    }
}

/// The path with the project suffix added unless it names a project already.
pub open spec fn normalized_spec(path: Seq<char>) -> Seq<char> {
    if is_local_project_spec(path) {
        path
    } else {
        path + project_suffix()
    }
}

/// Checks a locator: refused when it is blank, longer than the byte limit,
/// or holds a NUL, carriage return or line feed.
pub fn validate_locator(locator: &str, label: &str) -> (result: Result<(), String>)
    ensures
        result is Ok <==> !locator_is_unsafe(locator@),
        result matches Err(message) ==> message@ == locator_message(label@),
{
    if is_blank_text(locator) || utf8_len_exceeds(locator, MAX_LOCATOR_BYTES) || contains_char(
        locator,
        '\0',
    ) || contains_char(locator, '\r') || contains_char(locator, '\n') {
        let mut message = label.to_owned();
        push_str(&mut message, " locator is empty, oversized, or unsafe");
        return Err(message);
    }
    Ok(())
}

/// Checks a locator that may be left blank.
pub fn validate_optional_locator(locator: &str, label: &str) -> (result: Result<(), String>)
    ensures
        result is Ok <==> (is_blank(locator@) || !locator_is_unsafe(locator@)),
        result matches Err(message) ==> message@ == locator_message(label@),
{
    if is_blank_text(locator) {
        return Ok(());
    }
    validate_locator(locator, label)
}

fn is_sha256_text(digest: &str) -> (valid: bool)
    ensures
        valid == sha256_is_valid(digest@),
{
    let chars = chars_of(digest);
    if chars.len() != 64 {
        return false;
    }
    let mut index: usize = 0;
    while index < 64
        invariant
            index <= 64,
            chars.len() == 64,
            chars@ == digest@,
            forall|i: int| 0 <= i < index ==> is_ascii_hex(#[trigger] digest@[i]),
        decreases 64 - index,
    {
        let c = chars[index];
        if !(('0' <= c && c <= '9') || ('a' <= c && c <= 'f') || ('A' <= c && c <= 'F')) {
            return false;
        }
        index = index + 1;
    }
    true
}

fn unsupported_version(prefix: &str, version: u32) -> (message: String)
    ensures
        message@ == prefix@ + decimal_digits(version as nat),
{
    let mut message = prefix.to_owned();
    push_decimal(&mut message, version as u64);
    message
}

/// The locator for `path` relative to `base`, checked.
pub fn locator_from_path(path: &str, base: &str) -> (result: Result<String, String>)
    ensures
        result is Ok <==> !locator_is_unsafe(locator_spec(path@, base@)),
        result matches Ok(locator) ==> locator@ == locator_spec(path@, base@),
        result matches Err(message) ==> message@ == locator_message("project"@),
        result is Ok && is_clean_absolute(path@) && is_clean_absolute(base@) ==> forall|
            project: Seq<char>,
        |
            path_parent(project) == Some(base@) ==> #[trigger] resolved_spec(project, result->Ok_0@)
                == path@,
{
    let locator = match strip_prefix_of(path, base) {
        Some(rest) => rest,
        None => path.to_owned(),
    };
    match validate_locator(locator.as_str(), "project") {
        Ok(()) => {
            proof {
                if is_clean_absolute(path@) && is_clean_absolute(base@) {
                    lemma_locator_resolves_back(path@, base@, locator@);
                }
            }
            Ok(locator)
        },
        Err(message) => Err(message),
    }
}

proof fn lemma_locator_resolves_back(path: Seq<char>, base: Seq<char>, locator: Seq<char>)
    requires
        is_clean_absolute(path),
        is_clean_absolute(base),
        !is_blank(locator),
        locator == path || (strictly_below(path, base) && locator == tail_below(path, base)) || (
        path == base && locator.len() == 0),
    ensures
        forall|project: Seq<char>|
            path_parent(project) == Some(base) ==> #[trigger] resolved_spec(project, locator) == path,
{
    if locator.len() == 0 {
        assert(is_blank(locator));
    }
    if locator != path {
        assert(strictly_below(path, base) && locator == tail_below(path, base));
        if base == seq!['/'] {
            assert(path[0] == '/' && path[1] != '/');
            assert(locator[0] == path[1]);
            assert(base + locator =~= path);
        } else {
            assert(path[base.len() as int] == '/');
            assert(path[base.len() as int + 1] != '/');
            assert(locator[0] == path[base.len() as int + 1]);
            assert(base.len() > 1 ==> base.last() != '/');
            assert(base.last() != '/') by {
                if base.len() == 1 {
                    assert(base[0] == '/');
                    assert(base =~= seq!['/']);
                }
            }
            assert(base + seq!['/'] + locator =~= path);
        }
        assert forall|project: Seq<char>| path_parent(project) == Some(base) implies #[trigger] resolved_spec(
            project,
            locator,
        ) == path by {
            assert(locator_base(project) == base);
        }
    }
}

fn locator_base_of(project_path: &str) -> (base: String)
    ensures
        base@ == locator_base(project_path@),
        is_clean_absolute(project_path@) && project_path@.len() > 1 ==> base@ == plain_parent(
            project_path@,
        )->0,
{
    match parent_of(project_path) {
        Some(parent) => if parent.as_str().is_empty() {
            ".".to_owned()
        } else {
            parent
        },
        None => ".".to_owned(),
    }
}

fn absolutized_path(path: &str, working_directory: &str) -> (absolute: String)
    ensures
        absolute@ == absolutized(path@, working_directory@),
{
    if is_absolute_path(path) {
        path.to_owned()
    } else {
        join_paths(working_directory, path)
    }
}

/// The path that `locator` of the project at `project_path` stands for.
pub fn resolve_locator(project_path: &str, locator: &str) -> (resolved: String)
    ensures
        resolved@ == resolved_spec(project_path@, locator@),
        is_clean_absolute(project_path@) && project_path@.len() > 1 && !is_absolute_spec(locator@)
            ==> resolved@ == path_join(plain_parent(project_path@)->0, locator@),
{
    if is_absolute_path(locator) {
        return locator.to_owned();
    }
    let base = locator_base_of(project_path);
    join_paths(base.as_str(), locator)
}

impl LocalProjectFile {
    /// A project at `project_path` that points at the session bundle, the
    /// source and, where given, a signature pack with its digest. Relative
    /// paths are resolved against `working_directory`; the locators written
    /// are relative to the project's directory where the paths lie under it.
    pub fn new(
        project_path: &str,
        session_bundle: &str,
        source: &str,
        signature_pack: Option<(&str, &str)>,
        working_directory: &str,
    ) -> (result: Result<LocalProjectFile, String>)
        ensures
            ({
                let base = locator_base(absolutized(project_path@, working_directory@));
                let session = locator_spec(absolutized(session_bundle@, working_directory@), base);
                let src = locator_spec(absolutized(source@, working_directory@), base);
                let pack_unsafe = match signature_pack {
                    Some(pack) => locator_is_unsafe(
                        locator_spec(absolutized(pack.0@, working_directory@), base),
                    ),
                    None => false,
                };
                let digest_invalid = match signature_pack {
                    Some(pack) => !sha256_is_valid(pack.1@),
                    None => false,
                };
                &&& result is Ok <==> !pack_unsafe && !locator_is_unsafe(session)
                    && !locator_is_unsafe(src) && !digest_invalid
                &&& (pack_unsafe || locator_is_unsafe(session) || locator_is_unsafe(src))
                    ==> (result matches Err(message) && message@ == locator_message("project"@))
                &&& result matches Ok(project) ==> {
                    &&& project_fault(project) is None
                    &&& project.kind@ == project_kind()
                    &&& project.version == LOCAL_PROJECT_VERSION
                    &&& project.session_bundle@ == session
                    &&& project.source@ == src
                    &&& match (project.signature_pack, signature_pack) {
                        (Some(written), Some(pack)) => written.path@ == locator_spec(
                            absolutized(pack.0@, working_directory@),
                            base,
                        ) && written.sha256@ == pack.1@,
                        (None, None) => true,
                        _ => false,
                    }
                }
                &&& result matches Err(message) ==> (pack_unsafe || locator_is_unsafe(session)
                    || locator_is_unsafe(src)) || message@
                    == "signature-pack SHA-256 must contain 64 hexadecimal digits"@
            }),
    {
        let project_path = absolutized_path(project_path, working_directory);
        let session_bundle = absolutized_path(session_bundle, working_directory);
        let source = absolutized_path(source, working_directory);
        let base = locator_base_of(project_path.as_str());
        let signature_pack = match signature_pack {
            Some((path, sha256)) => {
                let path = absolutized_path(path, working_directory);
                let locator = match locator_from_path(path.as_str(), base.as_str()) {
                    Ok(locator) => locator,
                    Err(message) => return Err(message),
                };
                Some(LocalSignaturePack { path: locator, sha256: sha256.to_owned() })
            },
            None => None,
        };
        let session_locator = match locator_from_path(session_bundle.as_str(), base.as_str()) {
            Ok(locator) => locator,
            Err(message) => return Err(message),
        };
        let source_locator = match locator_from_path(source.as_str(), base.as_str()) {
            Ok(locator) => locator,
            Err(message) => return Err(message),
        };
        let project = LocalProjectFile {
            kind: "strata_local_project".to_owned(),
            version: LOCAL_PROJECT_VERSION,
            session_bundle: session_locator,
            source: source_locator,
            signature_pack,
        };
        match project.validate() {
            Ok(()) => Ok(project),
            Err(message) => Err(message),
        }
    }

    /// Checks the kind tag, the version, every locator and the signature
    /// pack's digest, in that order.
    pub fn validate(&self) -> (result: Result<(), String>)
        ensures
            result is Ok <==> project_fault(*self) is None,
            result matches Err(message) ==> project_fault(*self) == Some(message@),
    {
        if !text_equals(self.kind.as_str(), "strata_local_project") {
            return Err("not a Strata local project".to_owned());
        }
        if self.version != LOCAL_PROJECT_VERSION {
            return Err(unsupported_version("unsupported local project version ", self.version));
        }
        match validate_locator(self.session_bundle.as_str(), "session bundle") {
            Ok(()) => {},
            Err(message) => return Err(message),
        }
        match validate_locator(self.source.as_str(), "source") {
            Ok(()) => {},
            Err(message) => return Err(message),
        }
        match &self.signature_pack {
            Some(pack) => {
                match validate_locator(pack.path.as_str(), "signature pack") {
                    Ok(()) => {},
                    Err(message) => return Err(message),
                }
                if !is_sha256_text(pack.sha256.as_str()) {
                    return Err("signature-pack SHA-256 must contain 64 hexadecimal digits".to_owned());
                }
            },
            None => {},
        }
        Ok(())
    }

    /// The session bundle path for the project at `project_path`.
    pub fn resolved_session_bundle(&self, project_path: &str) -> (resolved: String)
        ensures
            resolved@ == resolved_spec(project_path@, self.session_bundle@),
    {
        resolve_locator(project_path, self.session_bundle.as_str())
    }

    /// The source path for the project at `project_path`.
    pub fn resolved_source(&self, project_path: &str) -> (resolved: String)
        ensures
            resolved@ == resolved_spec(project_path@, self.source@),
    {
        resolve_locator(project_path, self.source.as_str())
    }

    /// The signature pack path for the project at `project_path`, if any.
    pub fn resolved_signature_pack(&self, project_path: &str) -> (resolved: Option<String>)
        ensures
            match (resolved, self.signature_pack) {
                (Some(path), Some(pack)) => path@ == resolved_spec(project_path@, pack.path@),
                (None, None) => true,
                _ => false,
            },
    {
        match &self.signature_pack {
            Some(pack) => Some(resolve_locator(project_path, pack.path.as_str())),
            None => None,
        }
    }
}

impl ProjectPreferences {
    /// Checks the version, both optional locators, and that reopening the
    /// last project names one.
    pub fn validate(&self) -> (result: Result<(), String>)
        ensures
            result is Ok <==> preferences_fault(*self) is None,
            result matches Err(message) ==> preferences_fault(*self) == Some(message@),
    {
        if self.version != LOCAL_PROJECT_VERSION {
            return Err(
                unsupported_version("unsupported project preferences version ", self.version),
            );
        }
        match validate_optional_locator(self.last_project_path.as_str(), "last project") {
            Ok(()) => {},
            Err(message) => return Err(message),
        }
        match validate_optional_locator(
            self.default_signature_pack_path.as_str(),
            "default signature pack",
        ) {
            Ok(()) => {},
            Err(message) => return Err(message),
        }
        if self.reopen_last_project && is_blank_text(self.last_project_path.as_str()) {
            return Err("reopen-last-project requires a project path".to_owned());
        }
        Ok(())
    }
}

impl Default for ProjectPreferences {
    fn default() -> (preferences: ProjectPreferences)
        ensures
            preferences.version == LOCAL_PROJECT_VERSION,
            !preferences.reopen_last_project,
            preferences.last_project_path@ == Seq::<char>::empty(),
            preferences.default_signature_pack_path@ == Seq::<char>::empty(),
    {
        ProjectPreferences {
            version: LOCAL_PROJECT_VERSION,
            reopen_last_project: false,
            last_project_path: String::new(),
            default_signature_pack_path: String::new(),
        }
    }
}

/// Whether the path's file name ends with the project suffix.
pub fn is_local_project_path(path: &str) -> (found: bool)
    ensures
        found == is_local_project_spec(path@),
        is_plain_segment(final_segment(path@)) ==> found == ends_with_spec(
            final_segment(path@),
            project_suffix(),
        ),
{
    match file_name_of(path) {
        Some(name) => ends_with_text(name.as_str(), ".strata-project"),
        None => false,
    }
}

/// The project path a path with a normal final segment normalizes to: the
/// path itself when that segment ends with the project suffix, otherwise
/// the path with the suffix appended.
pub open spec fn plain_normalized(path: Seq<char>) -> Seq<char> {
    if ends_with_spec(final_segment(path), project_suffix()) {
        path
    } else {
        path + project_suffix()
    }
}

/// The session path beside a project at an absolute path in plain form:
/// the session file name pushed onto the project's directory.
pub open spec fn plain_session_path(project_path: Seq<char>) -> Result<Seq<char>, Seq<char>> {
    let normalized = plain_normalized(project_path);
    match session_file_name_spec(final_segment(normalized)) {
        Ok(name) => Ok(path_join(plain_parent(normalized)->0, name)),
        Err(message) => Err(message),
    }
}

/// The path with the project suffix appended unless it already names a
/// project.
pub fn normalized_project_path(path: &str) -> (normalized: String)
    ensures
        normalized@ == normalized_spec(path@),
        is_plain_segment(final_segment(path@)) ==> normalized@ == plain_normalized(path@),
        is_local_project_spec(normalized@),
        normalized_spec(normalized@) == normalized@,
{
    if is_local_project_path(path) {
        return path.to_owned();
    }
    let mut suffixed = path.to_owned();
    push_str(&mut suffixed, ".strata-project");
    proof {
        reveal_strlit(".strata-project");
        lemma_final_segment_append(path@, project_suffix());
        let segment = final_segment(suffixed@);
        assert(segment.len() >= 15);
        assert(segment.subrange(segment.len() - 15, segment.len() as int) =~= project_suffix());
    }
    // The file name of the suffixed path is its final segment, which ends
    // with the project suffix.
    let name = file_name_of(suffixed.as_str());
    assert(name is Some);
    suffixed
}

proof fn lemma_clean_append(path: Seq<char>, suffix: Seq<char>)
    requires
        is_clean_absolute(path),
        path.len() > 1,
        suffix.len() > 0,
        forall|i: int| 0 <= i < suffix.len() ==> #[trigger] suffix[i] != '/',
    ensures
        is_clean_absolute(path + suffix),
{
    let n = path + suffix;
    let len = path.len() as int;
    assert(path[len - 1] != '/');
    assert(n.last() == suffix[suffix.len() - 1]);
    assert forall|i: int| 0 <= i < n.len() - 1 && #[trigger] n[i] == '/' implies n[i + 1] != '/' by {
        if i + 1 < len {
            assert(n[i] == path[i] && n[i + 1] == path[i + 1]);
        } else if i < len {
            assert(n[i] == path[i]);
        } else {
            assert(n[i] == suffix[i - len]);
        }
    }
    assert forall|i: int| 1 <= i < n.len() && #[trigger] n[i] == '.' && n[i - 1] == '/' implies i + 1
        < n.len() && n[i + 1] != '/' by {
        if i < len {
            assert(n[i] == path[i] && n[i - 1] == path[i - 1]);
            if i + 1 < len {
                assert(n[i + 1] == path[i + 1]);
            } else {
                assert(n[i + 1] == suffix[0]);
            }
        } else if i == len {
            assert(n[i - 1] == path[len - 1]);
        } else {
            assert(n[i - 1] == suffix[i - 1 - len]);
        }
    }
}

proof fn lemma_final_segment_append(path: Seq<char>, suffix: Seq<char>)
    requires
        forall|i: int| 0 <= i < suffix.len() ==> #[trigger] suffix[i] != '/',
    ensures
        final_segment(path + suffix) == final_segment(path) + suffix,
    decreases suffix.len(),
{
    if suffix.len() == 0 {
        assert(path + suffix =~= path);
        assert(final_segment(path) + suffix =~= final_segment(path));
    } else {
        let shorter = suffix.drop_last();
        lemma_final_segment_append(path, shorter);
        assert((path + suffix).drop_last() =~= path + shorter);
        assert((path + suffix).last() == suffix.last());
        assert(final_segment(path) + suffix =~= (final_segment(path) + shorter).push(suffix.last()));
    }
}

/// The session bundle's file name for a project file name: the project's
/// name with the session suffix, or why the file name has no project name.
pub open spec fn session_file_name_spec(name: Seq<char>) -> Result<Seq<char>, Seq<char>> {
    if ends_with_spec(name, project_suffix()) && name.len() > project_suffix().len() {
        Ok(name.subrange(0, name.len() - project_suffix().len()) + ".strata-session"@)
    } else {
        Err("local project filename is missing its project name"@)
    }
}

/// The session bundle that sits beside a project, or why there is none.
pub open spec fn derived_session_spec(project_path: Seq<char>) -> Result<Seq<char>, Seq<char>> {
    let normalized = normalized_spec(project_path);
    match path_file_name(normalized) {
        None => Err("local project filename must be valid UTF-8"@),
        Some(name) => match session_file_name_spec(name) {
            Ok(session_name) => Ok(path_with_file_name(normalized, session_name)),
            Err(message) => Err(message),
        },
    }
}

/// The session bundle's file name for a project file name: `NAME.strata-project`
/// becomes `NAME.strata-session`; a name without the project suffix, or with
/// nothing before it, is refused.
pub fn session_file_name(project_file_name: &str) -> (result: Result<String, String>)
    ensures
        match (result, session_file_name_spec(project_file_name@)) {
            (Ok(name), Ok(expected)) => name@ == expected,
            (Err(message), Err(expected)) => message@ == expected,
            _ => false,
        },
{
    let chars = chars_of(project_file_name);
    let suffix_len: usize = 15;
    assert(project_suffix().len() == 15) by {
        reveal_strlit(".strata-project");
    }
    if !ends_with_text(project_file_name, ".strata-project") || chars.len() <= suffix_len {
        return Err("local project filename is missing its project name".to_owned());
    }
    let mut name = String::new();
    let mut index: usize = 0;
    while index < chars.len() - suffix_len
        invariant
            chars@ == project_file_name@,
            chars.len() > suffix_len,
            index <= chars.len() - suffix_len,
            name@ == project_file_name@.subrange(0, index as int),
        decreases chars.len() - suffix_len - index,
    {
        crate::text::push_char(&mut name, chars[index]);
        index = index + 1;
        assert(name@ =~= project_file_name@.subrange(0, index as int));
    }
    push_str(&mut name, ".strata-session");
    Ok(name)
}

/// The `.strata-session` bundle beside a project: same directory, same
/// name, other suffix.
pub fn derived_session_path(project_path: &str) -> (result: Result<String, String>)
    ensures
        match (result, derived_session_spec(project_path@)) {
            (Ok(path), Ok(expected)) => path@ == expected,
            (Err(message), Err(expected)) => message@ == expected,
            _ => false,
        },
        is_clean_absolute(project_path@) && is_plain_segment(final_segment(project_path@)) ==> match (
            result,
            plain_session_path(project_path@),
        ) {
            (Ok(path), Ok(expected)) => path@ == expected,
            (Err(message), Err(expected)) => message@ == expected,
            _ => false,
        },
{
    let normalized = normalized_project_path(project_path);
    proof {
        if is_clean_absolute(project_path@) && is_plain_segment(final_segment(project_path@)) {
            if normalized@ != project_path@ {
                reveal_strlit(".strata-project");
                lemma_final_segment_append(project_path@, project_suffix());
                lemma_clean_append(project_path@, project_suffix());
            }
        }
    }
    let name = match file_name_of(normalized.as_str()) {
        Some(name) => name,
        None => return Err("local project filename must be valid UTF-8".to_owned()),
    };
    match session_file_name(name.as_str()) {
        Ok(session_name) => Ok(with_file_name_of(normalized.as_str(), session_name.as_str())),
        Err(message) => Err(message),
    }
}

/// The file name proposed for a new project: the source's stem, or a
/// generic name, with the project suffix.
pub fn default_project_file_name(source_path: Option<&str>) -> (name: String)
    ensures
        name@ == (match source_path {
            Some(path) => match path_file_stem(path@) {
                Some(stem) => if stem.len() > 0 {
                    stem
                } else {
                    "strata-investigation"@
                },
                None => "strata-investigation"@,
            },
            None => "strata-investigation"@,
        }) + project_suffix(),
{
    let mut name = match source_path {
        Some(path) => match file_stem_of(path) {
            Some(stem) => if stem.as_str().is_empty() {
                "strata-investigation".to_owned()
            } else {
                stem
            },
            None => "strata-investigation".to_owned(),
        },
        None => "strata-investigation".to_owned(),
    };
    push_str(&mut name, ".strata-project");
    name
}

/// The directory in which a project dialog for the typed path opens: the
/// parent of the trimmed input, before anyone checks that it is a directory.
pub fn project_dialog_parent(input: &str) -> (parent: Option<String>)
    ensures
        match parent {
            Some(p) => path_parent(trimmed(input@)) == Some(p@),
            None => path_parent(trimmed(input@)) is None,
        },
        is_clean_absolute(trimmed(input@)) ==> (if trimmed(input@).len() <= 1 {
            parent is None
        } else {
            parent is Some && parent->0@ == plain_parent(trimmed(input@))->0
        }),
{
    let trimmed_input = trim_text(input);
    parent_of(trimmed_input.as_str())
}


/// The default preferences are valid.
pub proof fn lemma_default_preferences_valid(preferences: ProjectPreferences)
    requires
        preferences.version == LOCAL_PROJECT_VERSION,
        !preferences.reopen_last_project,
        preferences.last_project_path@ == Seq::<char>::empty(),
        preferences.default_signature_pack_path@ == Seq::<char>::empty(),
    ensures
        preferences_fault(preferences) is None,
{
}

} // verus!
