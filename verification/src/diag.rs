//! Diagnostics: positions in the source stream, fatal errors with cause
//! chains, and the ordered, sequence-numbered log of warnings plus an
//! optional terminal error.
use vstd::prelude::*;

verus! {

/// One step of a node path: the number of preceding siblings and the node
/// name.
#[derive(Debug)]
pub struct PathStep {
    /// Number of preceding siblings of the node on this step.
    pub sibling_index: usize,
    /// Name of the node on this step.
    pub name: String,
}

/// Ghost model of a [`PathStep`].
pub struct PathStepView {
    /// Number of preceding siblings.
    pub sibling_index: usize,
    /// Node name.
    pub name: Seq<char>,
}

impl View for PathStep {
    type V = PathStepView;

    open spec fn view(&self) -> PathStepView {
        PathStepView { sibling_index: self.sibling_index, name: self.name@ }
    }
}

impl Clone for PathStep {
    fn clone(&self) -> (r: Self)
        ensures
            r@ == self@,
    {
        PathStep { sibling_index: self.sibling_index, name: self.name.clone() }
    }
}

/// A position in the source byte stream: byte offsets, the path of the
/// surrounding node, and the attribute index when the position points at an
/// attribute.
#[derive(Debug)]
pub struct Position {
    /// Byte position of the event itself.
    pub byte_pos: u64,
    /// Beginning byte position of the surrounding node or attribute.
    pub component_byte_pos: u64,
    /// Path of the surrounding node, outermost first.
    pub node_path: Vec<PathStep>,
    /// Attribute index, when the position points at an attribute.
    pub attribute_index: Option<usize>,
}

/// Ghost model of a [`Position`].
pub struct PosView {
    /// Byte position of the event itself.
    pub byte_pos: u64,
    /// Beginning byte position of the surrounding node or attribute.
    pub component_byte_pos: u64,
    /// Path of the surrounding node, outermost first.
    pub node_path: Seq<PathStepView>,
    /// Attribute index, when present.
    pub attribute_index: Option<usize>,
}

impl View for Position {
    type V = PosView;

    open spec fn view(&self) -> PosView {
        PosView {
            byte_pos: self.byte_pos,
            component_byte_pos: self.component_byte_pos,
            node_path: self.node_path@.map_values(|p: PathStep| p@),
            attribute_index: self.attribute_index,
        }
    }
}

impl Clone for Position {
    fn clone(&self) -> (r: Self)
        ensures
            r@ == self@,
    {
        let mut path: Vec<PathStep> = Vec::new();
        let mut i: usize = 0;
        while i < self.node_path.len()
            invariant
                i <= self.node_path@.len(),
                path@.len() == i,
                forall|k: int| 0 <= k < i ==> (#[trigger] path@[k])@ == self.node_path@[k]@,
            decreases self.node_path@.len() - i,
        {
            path.push(self.node_path[i].clone());
            i = i + 1;
        }
        let r = Position {
            byte_pos: self.byte_pos,
            component_byte_pos: self.component_byte_pos,
            node_path: path,
            attribute_index: self.attribute_index,
        };
        proof {
            assert(r@.node_path =~= self@.node_path);
        }
        r
    }
}

/// View of an optional position.
pub open spec fn opt_pos_view(p: Option<Position>) -> Option<PosView> {
    match p {
        Some(q) => Some(q@),
        None => None,
    }
}

/// One link of a fatal error's cause chain: a message and an optional
/// position of its own.
#[derive(Debug)]
pub struct ErrorCause {
    /// Description of this cause.
    pub message: String,
    /// Position carried by this cause, when it has one of its own.
    pub position: Option<Position>,
}

/// Ghost model of an [`ErrorCause`].
pub struct CauseView {
    /// Description of this cause.
    pub message: Seq<char>,
    /// Position carried by this cause, when present.
    pub position: Option<PosView>,
}

impl View for ErrorCause {
    type V = CauseView;

    open spec fn view(&self) -> CauseView {
        CauseView { message: self.message@, position: opt_pos_view(self.position) }
    }
}

/// A fatal error of the decode: its full cause chain, outermost cause
/// first, at least one link long when built through the constructors.
#[derive(Debug)]
pub struct StreamError {
    /// Cause chain, outermost first.
    pub causes: Vec<ErrorCause>,
}

impl View for StreamError {
    type V = Seq<CauseView>;

    open spec fn view(&self) -> Seq<CauseView> {
        self.causes@.map_values(|c: ErrorCause| c@)
    }
}

impl StreamError {
    /// Creates an error with a single cause.
    pub fn new(message: String, position: Option<Position>) -> (e: Self)
        ensures
            e@ =~= seq![CauseView { message: message@, position: opt_pos_view(position) }],
    {
        let mut causes: Vec<ErrorCause> = Vec::new();
        causes.push(ErrorCause { message, position });
        StreamError { causes }
    }

    /// Appends one deeper (more inner) cause to the chain.
    pub fn push_cause(&mut self, message: String, position: Option<Position>)
        ensures
            final(self)@ =~= old(self)@.push(
                CauseView { message: message@, position: opt_pos_view(position) },
            ),
    {
        self.causes.push(ErrorCause { message, position });
    }
}

/// Severity of one diagnostic entry.
#[derive(Clone, Copy, Debug, PartialEq, Eq, Structural)]
pub enum Severity {
    /// A non-fatal diagnostic; never aborts the walk.
    Warning,
    /// One link of the terminal error's cause chain.
    Error,
}

impl Severity {
    /// Display label of the severity, as the log shows it.
    pub fn label(&self) -> (r: &str)
        ensures
            *self == Severity::Warning ==> r@ == "warning"@,
            *self == Severity::Error ==> r@ == "Error"@,
    {
        match *self {
            Severity::Warning => "warning",
            Severity::Error => "Error",
        }
    }
}

/// One diagnostic entry: sequence number, severity, message, and optional
/// position.
#[derive(Debug)]
pub struct LogEntry {
    /// Sequence number, assigned in append order across the whole decode.
    pub ordinal: usize,
    /// Severity of the entry.
    pub severity: Severity,
    /// Message of the entry.
    pub message: String,
    /// Position of the entry, when one is known.
    pub position: Option<Position>,
}

/// Position chosen for a cause-chain entry: the cause's own position when it
/// carries one, the externally supplied fallback otherwise.
pub open spec fn chosen_pos(own: Option<Position>, fallback: Option<Position>) -> Option<PosView> {
    match own {
        Some(p) => Some(p@),
        None => opt_pos_view(fallback),
    }
}

/// True when `e` is the warning entry with sequence number `k` for the
/// given message and position.
pub open spec fn is_warning_entry(e: LogEntry, k: int, message: Seq<char>, position: Option<PosView>) -> bool {
    e.ordinal == k && e.severity == Severity::Warning && e.message@ == message && opt_pos_view(
        e.position,
    ) == position
}

/// True when `e` is the error entry with sequence number `k` for the given
/// cause, with the cause's own position preferred over the fallback.
pub open spec fn is_error_entry(e: LogEntry, k: int, cause: ErrorCause, fallback: Option<Position>) -> bool {
    e.ordinal == k && e.severity == Severity::Error && e.message@ == cause.message@
        && opt_pos_view(e.position) == chosen_pos(cause.position, fallback)
}

/// One warning reported by the tokenizer during the walk, with its
/// position.
#[derive(Debug)]
pub struct WarningNote {
    /// Message of the warning.
    pub message: String,
    /// Position the warning was reported at.
    pub position: Position,
}

/// Ordered, sequence-numbered collection of diagnostic entries: warnings
/// accumulate during one decode, and at most one terminal error is appended
/// last with its cause chain expanded into one entry per cause.
#[derive(Debug)]
pub struct DiagnosticLog {
    entries: Vec<LogEntry>,
}

impl View for DiagnosticLog {
    type V = Seq<LogEntry>;

    closed spec fn view(&self) -> Seq<LogEntry> {
        self.entries@
    }
}

impl DiagnosticLog {
    /// Creates an empty log.
    pub fn new() -> (log: Self)
        ensures
            log@ == Seq::<LogEntry>::empty(),
    {
        DiagnosticLog { entries: Vec::new() }
    }

    /// Number of entries.
    pub fn len(&self) -> (n: usize)
        ensures
            n == self@.len(),
    {
        self.entries.len()
    }

    /// Borrows the entry at index `i`.
    pub fn get(&self, i: usize) -> (r: &LogEntry)
        requires
            i < self@.len(),
        ensures
            *r == self@[i as int],
    {
        &self.entries[i]
    }

    /// Discards all entries and resets the sequence numbering to zero.
    pub fn clear(&mut self)
        ensures
            final(self)@ == Seq::<LogEntry>::empty(),
    {
        self.entries.clear();
    }

    /// Appends one warning entry with the next sequence number. Never
    /// fails.
    pub fn record_warning(&mut self, message: String, position: Option<Position>)
        ensures
            final(self)@.len() == old(self)@.len() + 1,
            final(self)@.drop_last() == old(self)@,
            final(self)@.last().ordinal == old(self)@.len(),
            final(self)@.last().severity == Severity::Warning,
            final(self)@.last().message@ == message@,
            opt_pos_view(final(self)@.last().position) == opt_pos_view(position),
    {
        let ordinal = self.entries.len();
        self.entries.push(LogEntry { ordinal, severity: Severity::Warning, message, position });
    }

    /// Appends the full cause chain of a fatal error, outermost cause first,
    /// one entry per cause, with strictly increasing sequence numbers. Each
    /// entry carries the cause's own position when the cause has one, and
    /// the externally supplied position otherwise.
    pub fn record_error(&mut self, error: &StreamError, position: Option<Position>)
        ensures
            final(self)@.len() == old(self)@.len() + error.causes@.len(),
            final(self)@.subrange(0, old(self)@.len() as int) == old(self)@,
            forall|k: int|
                0 <= k < error.causes@.len() ==> is_error_entry(
                    #[trigger] final(self)@[old(self)@.len() + k],
                    old(self)@.len() + k,
                    error.causes@[k],
                    position,
                ),
    {
        let ghost base: Seq<LogEntry> = self@;
        let total = error.causes.len();
        let mut k: usize = 0;
        while k < total
            invariant
                k <= total,
                total == error.causes@.len(),
                self@.len() == base.len() + k,
                self@.subrange(0, base.len() as int) == base,
                forall|j: int|
                    0 <= j < k ==> is_error_entry(
                        #[trigger] self@[base.len() + j],
                        base.len() + j,
                        error.causes@[j],
                        position,
                    ),
            decreases total - k,
        {
            let cause = &error.causes[k];
            let own: Option<Position> = match &cause.position {
                Some(p) => Some(p.clone()),
                None => match &position {
                    Some(p) => Some(p.clone()),
                    None => None,
                },
            };
            let ordinal = self.entries.len();
            self.entries.push(
                LogEntry {
                    ordinal,
                    severity: Severity::Error,
                    message: cause.message.clone(),
                    position: own,
                },
            );
            proof {
                assert(self@.subrange(0, base.len() as int) =~= base);
                assert(self@[base.len() + k] == self@.last());
                assert(is_error_entry(self@[base.len() + k], base.len() + k, error.causes@[k as int], position));
            }
            k = k + 1;
        }
    }

    /// Resets the log to exactly the given decode outcome: every warning in
    /// order, then, when a terminal error is present, its expanded cause
    /// chain appended last.
    pub fn set_store(&mut self, warnings: &Vec<WarningNote>, error: Option<&StreamError>)
        ensures
            final(self)@.len() == warnings@.len() + (match error {
                Some(e) => e.causes@.len(),
                None => 0,
            }),
            forall|k: int|
                0 <= k < warnings@.len() ==> is_warning_entry(
                    #[trigger] final(self)@[k],
                    k,
                    warnings@[k].message@,
                    Some(warnings@[k].position@),
                ),
            error matches Some(err) ==> forall|k: int|
                0 <= k < err.causes@.len() ==> is_error_entry(
                    #[trigger] final(self)@[warnings@.len() + k],
                    warnings@.len() + k,
                    err.causes@[k],
                    None,
                ),
    {
        self.clear();
        let total = warnings.len();
        let mut i: usize = 0;
        while i < total
            invariant
                i <= total,
                total == warnings@.len(),
                self@.len() == i,
                forall|k: int|
                    0 <= k < i ==> is_warning_entry(
                        #[trigger] self@[k],
                        k,
                        warnings@[k].message@,
                        Some(warnings@[k].position@),
                    ),
            decreases total - i,
        {
            let note = &warnings[i];
            let ghost prev: Seq<LogEntry> = self@;
            self.record_warning(note.message.clone(), Some(note.position.clone()));
            proof {
                assert forall|k: int| 0 <= k < i implies self@[k] == prev[k] by {
                    assert(self@[k] == self@.drop_last()[k]);
                }
                assert(self@.len() == i + 1);
                assert(self@[i as int] == self@.last());
                assert forall|k: int|
                    0 <= k < i + 1 implies is_warning_entry(
                        #[trigger] self@[k],
                        k,
                        warnings@[k].message@,
                        Some(warnings@[k].position@),
                    ) by {
                    if k < i {
                        assert(self@[k] == prev[k]);
                        assert(is_warning_entry(
                            prev[k],
                            k,
                            warnings@[k].message@,
                            Some(warnings@[k].position@),
                        ));
                    } else {
                        assert(self@[k] == self@.last());
                    }
                }
            }
            i = i + 1;
        }
        match error {
            Some(err) => {
                let ghost prev: Seq<LogEntry> = self@;
                self.record_error(err, None);
                proof {
                    assert forall|k: int|
                        0 <= k < warnings@.len() implies is_warning_entry(
                            #[trigger] self@[k],
                            k,
                            warnings@[k].message@,
                            Some(warnings@[k].position@),
                        ) by {
                        assert(self@[k] == self@.subrange(0, prev.len() as int)[k]);
                        assert(self@[k] == prev[k]);
                        assert(is_warning_entry(
                            prev[k],
                            k,
                            warnings@[k].message@,
                            Some(warnings@[k].position@),
                        ));
                    }
                }
            },
            None => {},
        }
    }
}

} // verus!
