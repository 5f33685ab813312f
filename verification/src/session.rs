//! One edit session: load, edit the icon, edit the version strings, strip
//! the signature, write. The session decides; whoever runs it reads and
//! writes the files.

use vstd::prelude::*;
use vstd::string::StringExecFns;
use crate::container::{parsed, ExecutableImage};
use crate::editor::{edit, fresh, routed_all, MetadataEditor};
use crate::strings::pairs_view;
use crate::error::{EditError, ErrorKind};
use crate::icon::{icon_payload, is_payload_for};
use crate::resources::{icon_edit, set_icon, set_version_and_strings, version_edit};
use crate::signature::{has_signature, lemma_strip_idempotent, strip_pe_signature, stripped};

verus! {

/// Whether a request asks for the version strings to be edited.
pub open spec fn wants_strings(editor: crate::editor::EditorView) -> bool {
    editor.version is Some || editor.strings.len() > 0
}

/// The view of optional bytes.
pub open spec fn icon_view(icon: Option<&Vec<u8>>) -> Option<Seq<u8>> {
    match icon {
        Some(bytes) => Some(bytes@),
        None => None,
    }
}

/// The executable after the icon step: edited where an icon is given,
/// otherwise as it was.
pub open spec fn after_icon(bytes: Seq<u8>, icon: Option<Seq<u8>>) -> Result<Seq<u8>, ErrorKind> {
    match icon {
        Some(icon) => icon_edit(bytes, icon),
        None => Ok(bytes),
    }
}

/// The executable after the edit steps that are asked for, in their
/// order, or the kind of the first failure: the icon edit where an icon
/// is given, then the version edit where the request asks for a version
/// or for strings.
pub open spec fn edits_outcome(
    bytes: Seq<u8>,
    icon: Option<Seq<u8>>,
    request: crate::editor::EditorView,
) -> Result<Seq<u8>, ErrorKind> {
    match after_icon(bytes, icon) {
        Ok(edited) => if wants_strings(request) {
            version_edit(edited, request.version, request.strings)
        } else {
            Ok(edited)
        },
        Err(kind) => Err(kind),
    }
}

/// What a failed run leaves in memory: the steps before the failed one
/// are not undone.
pub open spec fn left_by_failure(bytes: Seq<u8>, icon: Option<Seq<u8>>) -> Seq<u8> {
    match after_icon(bytes, icon) {
        Ok(edited) => edited,
        Err(_) => bytes,
    }
}

/// Runs the edit steps on a loaded executable, in their order: the icon
/// edit where an icon is given, the version and strings edit where the
/// request asks for one, and then, always, the signature strip.
///
/// When all steps succeed the image is the stripped outcome of the edits
/// and the result says whether a signature was found. A failed step ends
/// the run with its kind of error: the signature is then not stripped,
/// and the image is as the steps before the failed one left it.
pub fn run_edits(image: &mut ExecutableImage, editor: &MetadataEditor, icon: Option<&Vec<u8>>) -> (r:
    Result<bool, EditError>)
    requires
        editor.wf(),
    ensures
        match edits_outcome(old(image)@, icon_view(icon), editor@) {
            Ok(edited) => r == Ok::<bool, EditError>(has_signature(edited)) && final(image)@
                == stripped(edited),
            Err(kind) => (r matches Err(e) && e.kind == kind) && final(image)@ == left_by_failure(
                old(image)@,
                icon_view(icon),
            ),
        },
        old(image).wf() ==> final(image).wf(),
{
    if let Some(icon) = icon {
        match set_icon(image, icon) {
            Ok(()) => {},
            Err(e) => {
                return Err(e);
            },
        }
    }
    if editor.version().is_some() || !editor.strings().is_empty() {
        match set_version_and_strings(image, editor.version(), editor.strings()) {
            Ok(()) => {},
            Err(e) => {
                return Err(e);
            },
        }
    }
    let found = image.strip_signature();
    Ok(found)
}

/// What the session asks its runner to do next.
pub enum Action {
    /// Read the file to edit; answer with `TargetMissing`, `TargetRead`
    /// or `ReadFailed`.
    ReadTarget { path: String },
    /// Read the picture file of the icon; answer with `IconRead` or
    /// `ReadFailed`.
    ReadIcon { path: String },
    /// Write the bytes to the file to edit; answer with `Written` or
    /// `WriteFailed`.
    WriteTarget { path: String, bytes: Vec<u8> },
    /// Nothing more: the session has ended.
    Stop,
}

/// What the runner reports back.
pub enum Event {
    /// The session is to start.
    Begin,
    /// The file to edit does not exist.
    TargetMissing,
    /// The content of the file to edit.
    TargetRead { bytes: Vec<u8> },
    /// The content of the picture file.
    IconRead { bytes: Vec<u8> },
    /// The file asked for could not be read, and why.
    ReadFailed { reason: String },
    /// The bytes were written.
    Written,
    /// The bytes could not be written, and why.
    WriteFailed { reason: String },
}

/// Where a session stands.
pub enum Stage {
    /// Nothing has happened yet.
    Start,
    /// The file to edit is being read.
    Loading,
    /// The executable is loaded and the picture file is being read.
    Loaded { image: ExecutableImage },
    /// The edited executable is being written.
    Writing,
    /// Ended well: the file holds the edited executable.
    Applied,
    /// Ended badly; nothing was written.
    Failed { error: EditError },
}

/// The stage is the failed one, with an error of the given kind.
pub open spec fn failed_with(stage: Stage, kind: ErrorKind) -> bool {
    match stage {
        Stage::Failed { error } => error.kind == kind,
        _ => false,
    }
}

/// The session ends here with an error of the given kind.
pub open spec fn ends_with(after: Stage, action: Action, kind: ErrorKind) -> bool {
    failed_with(after, kind) && action is Stop
}

/// The session ends here with an error of the given kind and context.
pub open spec fn ends_saying(after: Stage, action: Action, kind: ErrorKind, context: Seq<char>) -> bool {
    action is Stop && match after {
        Stage::Failed { error } => error.kind == kind && error.context@ == context,
        _ => false,
    }
}

/// The context of the error for a file that does not exist: it names
/// the file.
pub open spec fn missing_file_text(path: Seq<char>) -> Seq<char> {
    "File not found: "@ + path
}

/// The session asks for bytes to be written to the file to edit, and the
/// bytes claim no signature.
pub open spec fn asks_write(after: Stage, action: Action, request: crate::editor::EditorView) -> bool {
    match action {
        Action::WriteTarget { path, bytes } => after is Writing && path@ == request.file_path
            && !has_signature(bytes@),
        _ => false,
    }
}

/// The bytes that an action asks to be written, if it asks for a write.
pub open spec fn bytes_to_write(action: Action) -> Option<Seq<u8>> {
    match action {
        Action::WriteTarget { path, bytes } => Some(bytes@),
        _ => None,
    }
}

/// The session holds the executable and asks for the picture file.
pub open spec fn asks_icon(
    after: Stage,
    action: Action,
    request: crate::editor::EditorView,
    loaded: Seq<u8>,
) -> bool {
    match (after, action) {
        (Stage::Loaded { image }, Action::ReadIcon { path }) => image@ == loaded
            && request.icon_path == Some(path@),
        _ => false,
    }
}

/// The session asks for the file to edit to be read.
pub open spec fn asks_target(after: Stage, action: Action, request: crate::editor::EditorView) -> bool {
    match action {
        Action::ReadTarget { path } => after is Loading && path@ == request.file_path,
        _ => false,
    }
}

/// The session goes on as the outcome of the edits asks: the stripped
/// outcome is to be written, or the session ends with the kind of the
/// failure.
pub open spec fn finishes(
    after: Stage,
    action: Action,
    request: crate::editor::EditorView,
    outcome: Result<Seq<u8>, ErrorKind>,
) -> bool {
    match outcome {
        Ok(edited) => asks_write(after, action, request) && bytes_to_write(action) == Some(
            stripped(edited),
        ),
        Err(kind) => ends_with(after, action, kind),
    }
}

/// The session goes on as the edits with some icon data for the picture
/// file ask.
pub open spec fn finishes_with_icon(
    after: Stage,
    action: Action,
    request: crate::editor::EditorView,
    loaded: Seq<u8>,
    file: Seq<u8>,
) -> bool {
    exists|payload: Seq<u8>|
        #[trigger] is_payload_for(file, request.icon_path.unwrap(), payload) && finishes(
            after,
            action,
            request,
            edits_outcome(loaded, Some(payload), request),
        )
}

/// What a session does on a report.
///
/// From the start the file to edit is read. A missing file ends the
/// session with `FileNotFound` and a context that names the file; an
/// unreadable one with `IOError` and the reason reported; one that is no
/// executable with `ParseError`. A loaded executable is edited at once
/// where no icon was asked for; otherwise the picture file is read
/// first, and an unreadable picture file ends the session with
/// `IconError` and the reason reported. The edits end as [`finishes`]
/// says: the stripped outcome of the edits is to be written, or the
/// session ends with the kind of the step that failed. A confirmed write
/// ends the session as applied, a failed one with `IOError` and the
/// reason reported. A session that has ended stays as it is, and a
/// report that the stage does not wait for ends it with `IOError`. So a
/// write is asked for only after the executable was read and parsed.
pub open spec fn decides(
    before: Stage,
    request: crate::editor::EditorView,
    event: Event,
    after: Stage,
    action: Action,
) -> bool {
    match before {
        Stage::Applied => after == before && action is Stop,
        Stage::Failed { error } => after == before && action is Stop,
        Stage::Start => match event {
            Event::Begin => asks_target(after, action, request),
            _ => ends_with(after, action, ErrorKind::IOError),
        },
        Stage::Loading => match event {
            Event::TargetMissing => ends_saying(
                after,
                action,
                ErrorKind::FileNotFound,
                missing_file_text(request.file_path),
            ),
            Event::ReadFailed { reason } => ends_saying(
                after,
                action,
                ErrorKind::IOError,
                reason@,
            ),
            Event::TargetRead { bytes } => {
                if parsed(bytes@) is Err {
                    ends_with(after, action, ErrorKind::ParseError)
                } else if request.icon_path is Some {
                    asks_icon(after, action, request, bytes@)
                } else {
                    finishes(after, action, request, edits_outcome(bytes@, None, request))
                }
            },
            _ => ends_with(after, action, ErrorKind::IOError),
        },
        Stage::Loaded { image } => match event {
            Event::IconRead { bytes } => finishes_with_icon(
                after,
                action,
                request,
                image@,
                bytes@,
            ),
            Event::ReadFailed { reason } => ends_saying(
                after,
                action,
                ErrorKind::IconError,
                reason@,
            ),
            _ => ends_with(after, action, ErrorKind::IOError),
        },
        Stage::Writing => match event {
            Event::Written => after is Applied && action is Stop,
            Event::WriteFailed { reason } => ends_saying(
                after,
                action,
                ErrorKind::IOError,
                reason@,
            ),
            _ => ends_with(after, action, ErrorKind::IOError),
        },
    }
}

/// A session: the request and the stage it has reached.
pub struct Session {
    editor: MetadataEditor,
    stage: Stage,
}

impl Session {
    /// The request of the session, as a specification sees it.
    pub closed spec fn request(&self) -> crate::editor::EditorView {
        self.editor@
    }

    /// The stage of the session.
    pub closed spec fn stage(&self) -> Stage {
        self.stage
    }

    /// Well-formedness: the request is well-formed, and an executable that
    /// is held has a layout.
    pub closed spec fn wf(&self) -> bool {
        &&& self.editor.wf()
        &&& self.stage matches Stage::Loaded { image } ==> image.wf() && parsed(image@) is Ok
            && self.editor@.icon_path is Some
    }

    /// Whether the session has ended.
    pub open spec fn ended(&self) -> bool {
        self.stage() is Applied || self.stage() is Failed
    }

    /// A session for a request, at its start.
    pub fn new(editor: MetadataEditor) -> (s: Session)
        requires
            editor.wf(),
        ensures
            s.wf(),
            s.stage() is Start,
            s.request() == editor@,
    {
        Session { editor, stage: Stage::Start }
    }

    /// Whether the session has ended.
    pub fn is_over(&self) -> (b: bool)
        ensures
            b == self.ended(),
    {
        match &self.stage {
            Stage::Applied => true,
            Stage::Failed { .. } => true,
            _ => false,
        }
    }

    /// How the session ended: `None` while it runs, `Some(Ok(()))` when
    /// the edit was applied, and the error otherwise.
    pub fn outcome(self) -> (r: Option<Result<(), EditError>>)
        ensures
            match r {
                None => !self.ended(),
                Some(Ok(())) => self.stage() is Applied,
                Some(Err(e)) => self.stage() == (Stage::Failed { error: e }),
            },
    {
        match self.stage {
            Stage::Applied => Some(Ok(())),
            Stage::Failed { error } => Some(Err(error)),
            _ => None,
        }
    }

    /// Ends the session with an error.
    fn fail(self, kind: ErrorKind, context: &str) -> (r: (Session, Action))
        requires
            self.wf(),
        ensures
            r.0.wf(),
            r.0.request() == self.request(),
            ends_saying(r.0.stage(), r.1, kind, context@),
    {
        (
            Session { editor: self.editor, stage: Stage::Failed { error: EditError::new(kind, context) } },
            Action::Stop,
        )
    }

    /// Runs the edit steps on the loaded executable and asks for the
    /// stripped result to be written, or ends the session with the error.
    fn edit_and_write(editor: MetadataEditor, image: ExecutableImage, icon: Option<&Vec<u8>>) -> (r:
        (Session, Action))
        requires
            editor.wf(),
            image.wf(),
        ensures
            r.0.wf(),
            r.0.request() == editor@,
            finishes(
                r.0.stage(),
                r.1,
                editor@,
                edits_outcome(image@, icon_view(icon), editor@),
            ),
    {
        let mut image = image;
        let ghost outcome = edits_outcome(image@, icon_view(icon), editor@);
        match run_edits(&mut image, &editor, icon) {
            Ok(_) => {
                proof {
                    lemma_strip_idempotent(outcome->Ok_0);
                }
                let path = editor.file_path().clone();
                let bytes = image.serialize();
                (Session { editor, stage: Stage::Writing }, Action::WriteTarget { path, bytes })
            },
            Err(error) => (Session { editor, stage: Stage::Failed { error } }, Action::Stop),
        }
    }

    /// Takes what the runner reports and decides what comes next, as
    /// [`decides`] says.
    pub fn advance(self, event: Event) -> (r: (Session, Action))
        requires
            self.wf(),
        ensures
            r.0.wf(),
            r.0.request() == self.request(),
            decides(self.stage(), self.request(), event, r.0.stage(), r.1),
    {
        let Session { editor, stage } = self;
        match (stage, event) {
            (Stage::Applied, _) => (Session { editor, stage: Stage::Applied }, Action::Stop),
            (Stage::Failed { error }, _) => (
                Session { editor, stage: Stage::Failed { error } },
                Action::Stop,
            ),
            (Stage::Start, Event::Begin) => {
                let path = editor.file_path().clone();
                (Session { editor, stage: Stage::Loading }, Action::ReadTarget { path })
            },
            (Stage::Loading, Event::TargetMissing) => {
                let mut context = "File not found: ".to_owned();
                context.append(editor.file_path().as_str());
                Session { editor, stage: Stage::Loading }.fail(
                    ErrorKind::FileNotFound,
                    context.as_str(),
                )
            },
            (Stage::Loading, Event::ReadFailed { reason }) => Session {
                editor,
                stage: Stage::Loading,
            }.fail(ErrorKind::IOError, reason.as_str()),
            (Stage::Loading, Event::TargetRead { bytes }) => {
                match ExecutableImage::parse(bytes) {
                    Ok(image) => {
                        let icon_path = match editor.icon_path() {
                            Some(path) => Some(path.clone()),
                            None => None,
                        };
                        match icon_path {
                            Some(path) => (
                                Session { editor, stage: Stage::Loaded { image } },
                                Action::ReadIcon { path },
                            ),
                            None => Session::edit_and_write(editor, image, None),
                        }
                    },
                    Err(error) => (Session { editor, stage: Stage::Failed { error } }, Action::Stop),
                }
            },
            (Stage::Loaded { image }, Event::IconRead { bytes }) => {
                let payload = match editor.icon_path() {
                    Some(path) => icon_payload(&bytes, path.as_str()),
                    None => bytes,
                };
                let r = Session::edit_and_write(editor, image, Some(&payload));
                assert(is_payload_for(bytes@, editor@.icon_path.unwrap(), payload@));
                r
            },
            (Stage::Loaded { image }, Event::ReadFailed { reason }) => Session {
                editor,
                stage: Stage::Loading,
            }.fail(ErrorKind::IconError, reason.as_str()),
            (Stage::Writing, Event::Written) => (
                Session { editor, stage: Stage::Applied },
                Action::Stop,
            ),
            (Stage::Writing, Event::WriteFailed { reason }) => Session {
                editor,
                stage: Stage::Writing,
            }.fail(ErrorKind::IOError, reason.as_str()),
            (_, _) => Session { editor, stage: Stage::Start }.fail(
                ErrorKind::IOError,
                "report does not answer what was asked",
            ),
        }
    }
}


impl MetadataEditor {
    /// Starts the session that applies the request: the first thing asked
    /// for is the content of the file to edit.
    pub fn apply(self) -> (r: (Session, Action))
        requires
            self.wf(),
        ensures
            r.0.wf(),
            r.0.request() == self@,
            asks_target(r.0.stage(), r.1, self@),
    {
        Session::new(self).advance(Event::Begin)
    }

    /// Strips the signature of the given content of the file, whatever
    /// else the request asks for. Gives the bytes to write back where a
    /// signature was found, and `None` where the file can stay as it is.
    pub fn remove_signature(&self, content: Vec<u8>) -> (r: Option<Vec<u8>>)
        ensures
            match r {
                Some(bytes) => has_signature(content@) && bytes@ == stripped(content@),
                None => !has_signature(content@),
            },
    {
        let mut content = content;
        if strip_pe_signature(&mut content) {
            Some(content)
        } else {
            None
        }
    }
}

/// Builds a request from a flat metadata map, as [`edit`] does, and
/// starts the session that applies it.
pub fn update(file_path: String, fields: Option<Vec<(String, String)>>) -> (r: (Session, Action))
    ensures
        r.0.wf(),
        r.0.request() == match fields {
            Some(pairs) => routed_all(fresh(file_path@), pairs_view(pairs@), pairs@.len()),
            None => fresh(file_path@),
        },
        asks_target(r.0.stage(), r.1, r.0.request()),
{
    edit(file_path, fields).apply()
}

/// A file that does not exist ends the session with `FileNotFound`, and
/// nothing is asked to be written.
pub proof fn lemma_missing_file_writes_nothing(
    before: Stage,
    request: crate::editor::EditorView,
    event: Event,
    after: Stage,
    action: Action,
)
    requires
        decides(before, request, event, after, action),
        before is Loading,
        event is TargetMissing,
    ensures
        failed_with(after, ErrorKind::FileNotFound),
        after matches Stage::Failed { error } && error.context@ == missing_file_text(request.file_path),
        bytes_to_write(action) is None,
{
}

/// A write is asked for only when the content of the file to edit, or of
/// the picture file, has just come in, the executable was parsed, and all
/// edit steps succeeded; the stage is then the writing one.
pub proof fn lemma_write_follows_load(
    before: Stage,
    request: crate::editor::EditorView,
    event: Event,
    after: Stage,
    action: Action,
)
    requires
        decides(before, request, event, after, action),
        bytes_to_write(action) is Some,
    ensures
        (before is Loading && event is TargetRead) || (before is Loaded && event is IconRead),
        after is Writing,
        !has_signature(bytes_to_write(action)->Some_0),
{
}

/// A session that has ended stays as it is and asks for nothing more.
pub proof fn lemma_ended_session_stays(
    before: Stage,
    request: crate::editor::EditorView,
    event: Event,
    after: Stage,
    action: Action,
)
    requires
        decides(before, request, event, after, action),
        before is Applied || before is Failed,
    ensures
        after == before,
        action is Stop,
{
}

} // verus!
