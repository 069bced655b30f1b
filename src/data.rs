use vstd::prelude::*;
use crate::event::Event;

verus! {

/// Addresses an output slot of a task: value type and ordinal.
#[derive(Clone, Copy, PartialEq, Eq, Structural, Debug)]
pub struct CellId {
    pub type_id: u32,
    pub index: u32,
}

/// A reference to a value produced by a task.
#[derive(Clone, Copy, PartialEq, Eq, Structural, Debug)]
pub enum RawVc {
    TaskOutput(u64),
    TaskCell(u64, CellId),
}

/// The latest output of a task.
#[derive(Clone, Copy, PartialEq, Eq, Structural, Debug)]
pub enum OutputValue {
    Cell(u64, CellId),
    Output(u64),
    Error,
    Panic,
}

/// Whether a task is waiting to run or running.
pub enum InProgressState {
    Scheduled { clean: bool, done_event: Event, start_event: Event },
    InProgress { clean: bool, stale: bool, done_event: Event },
}

impl InProgressState {
    pub open spec fn wf(&self) -> bool {
        match self {
            InProgressState::Scheduled { done_event, start_event, .. } => done_event.wf()
                && start_event.wf(),
            InProgressState::InProgress { done_event, .. } => done_event.wf(),
        }
    }

    pub open spec fn done_event(&self) -> Event {
        match self {
            InProgressState::Scheduled { done_event, .. } => *done_event,
            InProgressState::InProgress { done_event, .. } => *done_event,
        }
    }

    pub open spec fn is_scheduled(&self) -> bool {
        self is Scheduled
    }

    pub open spec fn is_executing(&self) -> bool {
        self is InProgress
    }
}

/// The error companion of an `Error` or `Panic` output.
#[derive(Debug)]
pub struct ErrorRecord {
    pub panicked: bool,
    pub message: Option<String>,
}

impl ErrorRecord {
    pub fn duplicate(&self) -> (r: ErrorRecord)
        ensures
            r.panicked == self.panicked,
            r.message == self.message,
    {
        let message = match &self.message {
            Some(m) => Some(m.clone()),
            None => None,
        };
        ErrorRecord { panicked: self.panicked, message }
    }
}

/// The cached value of one cell.
pub struct CellEntry {
    pub cell: CellId,
    pub content: Option<Vec<u8>>,
}

/// The bytes of a cell content as a mathematical value.
pub open spec fn content_view(c: Option<Vec<u8>>) -> Option<Seq<u8>> {
    match c {
        Some(b) => Some(b@),
        None => None,
    }
}

/// A typed cell value as a read hands it out.
pub struct TypedCellContent {
    pub type_id: u32,
    pub content: Option<Vec<u8>>,
}

/// All data held for one task. Each category holds at most one item, but
/// cells (one per cell id) and children (one per child).
pub struct TaskData {
    pub in_progress: Option<InProgressState>,
    pub output: Option<OutputValue>,
    pub error: Option<ErrorRecord>,
    pub cells: Vec<CellEntry>,
    pub children: Vec<u64>,
}

impl TaskData {
    pub open spec fn wf(&self) -> bool {
        &&& (self.in_progress matches Some(ip) ==> ip.wf())
        &&& forall|i: int, j: int|
            0 <= i < j < self.cells@.len() ==> self.cells@[i].cell != self.cells@[j].cell
        &&& forall|i: int, j: int|
            0 <= i < j < self.children@.len() ==> self.children@[i] != self.children@[j]
    }

    pub open spec fn has_cell(&self, cell: CellId) -> bool {
        exists|i: int| 0 <= i < self.cells@.len() && (#[trigger] self.cells@[i]).cell == cell
    }

    /// The content cached for `cell`, where `has_cell(cell)`.
    pub open spec fn cell_content(&self, cell: CellId) -> Option<Vec<u8>> {
        let i = choose|i: int| 0 <= i < self.cells@.len() && (#[trigger] self.cells@[i]).cell == cell;
        self.cells@[i].content
    }

    pub fn empty() -> (d: Self)
        ensures
            d.wf(),
            d.in_progress is None,
            d.output is None,
            d.error is None,
            d.cells@.len() == 0,
            d.children@.len() == 0,
    {
        TaskData { in_progress: None, output: None, error: None, cells: Vec::new(), children: Vec::new() }
    }

    /// The position of `cell` in `cells`, if it is there.
    pub fn find_cell(&self, cell: CellId) -> (r: Option<usize>)
        ensures
            match r {
                Some(i) => i < self.cells@.len() && self.cells@[i as int].cell == cell,
                None => !self.has_cell(cell),
            },
    {
        let mut i: usize = 0;
        while i < self.cells.len()
            invariant
                i <= self.cells@.len(),
                forall|k: int| 0 <= k < i ==> (#[trigger] self.cells@[k]).cell != cell,
            decreases self.cells@.len() - i,
        {
            if self.cells[i].cell == cell {
                return Some(i);
            }
            i = i + 1;
        }
        None
    }

    /// Whether `child` is among the children.
    pub fn has_child(&self, child: u64) -> (r: bool)
        ensures
            r == self.children@.contains(child),
    {
        let mut i: usize = 0;
        while i < self.children.len()
            invariant
                i <= self.children@.len(),
                forall|k: int| 0 <= k < i ==> self.children@[k] != child,
            decreases self.children@.len() - i,
        {
            if self.children[i] == child {
                return true;
            }
            i = i + 1;
        }
        false
    }
}

/// The key of a data item, as the change log records it.
#[derive(Clone, Copy, PartialEq, Eq, Structural, Debug)]
pub enum ItemKey {
    InProgress,
    Output,
    Error,
    CellData(CellId),
    Child(u64),
}

/// One record of the storage change log.
#[derive(Clone, Copy, PartialEq, Eq, Structural, Debug)]
pub struct CachedDataUpdate {
    pub task: u64,
    pub key: ItemKey,
    /// `true` for an item set (added or replaced), `false` for one removed.
    pub added: bool,
}

/// What a transient task runs: a restartable root, or a one-shot future.
#[derive(Clone, Copy, PartialEq, Eq, Structural, Debug)]
pub enum TransientTaskType {
    Root,
    Once,
}

} // verus!
