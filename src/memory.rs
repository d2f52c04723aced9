//! Bounded journal of what the agent saw and did, rendered into its prompt.
use vstd::prelude::*;
use vstd::string::StringExecFns;
use crate::text::{join, join_strings, views};

verus! {

/// Most entries the journal holds.
pub const MAX_JOURNAL_ENTRIES: usize = 100;

/// Entries of the journal that the prompt context shows.
pub const RECENT_ENTRIES: usize = 10;

/// Settings of the memory store.
#[derive(Debug, Clone)]
pub struct MemoryConfig {
    /// Storage directory.
    pub storage_dir: String,
    /// Number of entries to retrieve.
    pub top_k: usize,
    /// Maximum cognition rounds.
    pub max_cognition_rounds: usize,
    /// Embedding model identifier.
    pub embedding_model: String,
}

/// Relies on dirs::home_dir: the current user's home directory, when one is known.
#[verifier::external_body]
fn home_dir() -> (r: Option<String>) {
    dirs::home_dir().map(|p| p.to_string_lossy().into_owned())
}

/// `base` and `part` joined by one path separator.
pub open spec fn path_join(base: Seq<char>, part: Seq<char>) -> Seq<char> {
    if base.len() > 0 && base.last() == '/' {
        base + part
    } else {
        base + seq!['/'] + part
    }
}

/// Where the memory is stored: `.shelly/memory` under the given home directory,
/// or relative to the working directory when there is none.
pub open spec fn storage_dir_for(home: Option<Seq<char>>) -> Seq<char> {
    match home {
        Some(h) => path_join(path_join(h, ".shelly"@), "memory"@),
        None => ".shelly/memory"@,
    }
}

fn join_path(base: String, part: &str) -> (r: String)
    ensures
        r@ == path_join(base@, part@),
{
    let n = base.as_str().unicode_len();
    let ends_with_slash = n > 0 && base.as_str().get_char(n - 1) == '/';
    let mut r = base;
    if !ends_with_slash {
        proof {
            reveal_strlit("/");
        }
        r.append("/");
    }
    r.append(part);
    r
}

impl MemoryConfig {
    /// The default settings, storing under the given home directory.
    pub fn with_home(home: Option<String>) -> (r: MemoryConfig)
        ensures
            r.storage_dir@ == storage_dir_for(match home {
                Some(h) => Some(h@),
                None => None,
            }),
            r.top_k == 5,
            r.max_cognition_rounds == 3,
            r.embedding_model@ == "default"@,
    {
        let storage_dir = match home {
            Some(h) => join_path(join_path(h, ".shelly"), "memory"),
            None => String::from_str(".shelly/memory"),
        };
        MemoryConfig {
            storage_dir,
            top_k: 5,
            max_cognition_rounds: 3,
            embedding_model: String::from_str("default"),
        }
    }
}

impl Default for MemoryConfig {
    fn default() -> (r: MemoryConfig)
        ensures
            r.top_k == 5,
            r.max_cognition_rounds == 3,
            r.embedding_model@ == "default"@,
    {
        MemoryConfig::with_home(home_dir())
    }
}

/// Errors of the memory store.
#[derive(Debug, Clone)]
pub enum MemoryError {
    LoadFailed(String),
    StoreFailed(String),
    EmbeddingFailed(String),
}

/// One journal entry.
#[derive(Debug, Clone)]
pub enum MemoryEntry {
    /// System information (hostname, OS, ...).
    SystemInfo(String),
    /// A user's request and the answer given.
    UserInteraction { query: String, response: String },
    /// What a tool returned.
    ToolResult { tool: String, result: String },
    /// The agent's own observation.
    Observation(String),
    /// An error or warning.
    Error(String),
}

/// What a journal entry holds, as text.
pub enum EntryView {
    SystemInfo(Seq<char>),
    UserInteraction { query: Seq<char>, response: Seq<char> },
    ToolResult { tool: Seq<char>, result: Seq<char> },
    Observation(Seq<char>),
    Error(Seq<char>),
}

impl View for MemoryEntry {
    type V = EntryView;

    open spec fn view(&self) -> EntryView {
        match self {
            MemoryEntry::SystemInfo(s) => EntryView::SystemInfo(s@),
            MemoryEntry::UserInteraction { query, response } => EntryView::UserInteraction {
                query: query@,
                response: response@,
            },
            MemoryEntry::ToolResult { tool, result } => EntryView::ToolResult {
                tool: tool@,
                result: result@,
            },
            MemoryEntry::Observation(s) => EntryView::Observation(s@),
            MemoryEntry::Error(s) => EntryView::Error(s@),
        }
    }
}

/// The one-line rendering of an entry.
pub open spec fn render_entry(e: EntryView) -> Seq<char> {
    match e {
        EntryView::SystemInfo(s) => "[system] "@ + s,
        EntryView::UserInteraction { query, response } =>
            "[user] "@ + query + " -> [response] "@ + response,
        EntryView::ToolResult { tool, result } => "[tool: "@ + tool + "] "@ + result,
        EntryView::Observation(s) => "[observation] "@ + s,
        EntryView::Error(s) => "[error] "@ + s,
    }
}

impl MemoryEntry {
    /// Renders the entry on one line, tagged by its kind.
    pub fn render(&self) -> (r: String)
        ensures
            r@ == render_entry(self@),
    {
        match self {
            MemoryEntry::SystemInfo(s) => String::from_str("[system] ").concat(s.as_str()),
            MemoryEntry::UserInteraction { query, response } => {
                let mut r = String::from_str("[user] ");
                r.append(query.as_str());
                r.append(" -> [response] ");
                r.append(response.as_str());
                r
            },
            MemoryEntry::ToolResult { tool, result } => {
                let mut r = String::from_str("[tool: ");
                r.append(tool.as_str());
                r.append("] ");
                r.append(result.as_str());
                r
            },
            MemoryEntry::Observation(s) => String::from_str("[observation] ").concat(s.as_str()),
            MemoryEntry::Error(s) => String::from_str("[error] ").concat(s.as_str()),
        }
    }

    /// A copy of the entry.
    pub fn duplicate(&self) -> (r: MemoryEntry)
        ensures
            r@ == self@,
    {
        match self {
            MemoryEntry::SystemInfo(s) => MemoryEntry::SystemInfo(s.clone()),
            MemoryEntry::UserInteraction { query, response } => MemoryEntry::UserInteraction {
                query: query.clone(),
                response: response.clone(),
            },
            MemoryEntry::ToolResult { tool, result } => MemoryEntry::ToolResult {
                tool: tool.clone(),
                result: result.clone(),
            },
            MemoryEntry::Observation(s) => MemoryEntry::Observation(s.clone()),
            MemoryEntry::Error(s) => MemoryEntry::Error(s.clone()),
        }
    }
}

/// The last `n` items of `s` (all of them when there are fewer), in order.
pub open spec fn keep_last<A>(s: Seq<A>, n: nat) -> Seq<A> {
    if s.len() > n {
        s.subrange(s.len() - n, s.len() as int)
    } else {
        s
    }
}

/// The journal after one more entry: appended at the tail, the oldest dropped past
/// the capacity.
pub open spec fn journal_add(j: Seq<EntryView>, e: EntryView) -> Seq<EntryView> {
    keep_last(j.push(e), MAX_JOURNAL_ENTRIES as nat)
}

/// The journal after adding each of `adds` in turn.
pub open spec fn journal_after(j: Seq<EntryView>, adds: Seq<EntryView>) -> Seq<EntryView>
    decreases adds.len(),
{
    if adds.len() == 0 {
        j
    } else {
        journal_add(journal_after(j, adds.drop_last()), adds.last())
    }
}

/// After any sequence of additions the journal holds at most its capacity, and what
/// it holds is the most recent entries in the order they were added.
pub proof fn lemma_journal_bound(start: Seq<EntryView>, adds: Seq<EntryView>)
    requires
        start.len() <= MAX_JOURNAL_ENTRIES,
    ensures
        journal_after(start, adds).len() <= MAX_JOURNAL_ENTRIES,
        journal_after(start, adds) == keep_last(start + adds, MAX_JOURNAL_ENTRIES as nat),
    decreases adds.len(),
{
    if adds.len() == 0 {
        assert(start + adds =~= start);
    } else {
        lemma_journal_bound(start, adds.drop_last());
        let prev = journal_after(start, adds.drop_last());
        let all = start + adds;
        assert(all.drop_last() =~= start + adds.drop_last());
        assert(all.last() == adds.last());
        let n = MAX_JOURNAL_ENTRIES as nat;
        let pushed = prev.push(adds.last());
        if all.len() > n {
            assert(keep_last(all, n) =~= keep_last(pushed, n));
        } else {
            assert(pushed =~= all);
        }
    }
}

/// The context section for the prompt, built from the identity (when it is set), the
/// known topology (when there is any) and the last journal entries, each under a heading.
pub open spec fn context_of(identity: Seq<char>, topology: Seq<Seq<char>>, journal: Seq<EntryView>) -> Seq<char> {
    let id_part: Seq<Seq<char>> = if identity.len() > 0 {
        seq!["## Identity\n"@ + identity]
    } else {
        Seq::empty()
    };
    let topo_part: Seq<Seq<char>> = if topology.len() > 0 {
        seq!["## Known Topology\n"@ + join(topology, "\n"@)]
    } else {
        Seq::empty()
    };
    let recent = keep_last(journal, RECENT_ENTRIES as nat);
    let hist_part: Seq<Seq<char>> = if recent.len() > 0 {
        seq!["## Recent History\n"@ + join(recent.map_values(|e: EntryView| "- "@ + render_entry(e)), "\n"@)]
    } else {
        Seq::empty()
    };
    join(id_part + topo_part + hist_part, "\n\n"@)
}

/// The agent's memory: identity, known topology and a bounded journal.
#[derive(Debug, Clone)]
pub struct Memory {
    journal: Vec<MemoryEntry>,
    identity: String,
    topology: Vec<String>,
    config: MemoryConfig,
}

impl Memory {
    /// The journal, oldest first.
    pub closed spec fn journal_view(&self) -> Seq<EntryView> {
        self.journal@.map_values(|e: MemoryEntry| e@)
    }

    pub closed spec fn identity_view(&self) -> Seq<char> {
        self.identity@
    }

    pub closed spec fn topology_view(&self) -> Seq<Seq<char>> {
        views(self.topology@)
    }

    pub closed spec fn config_view(&self) -> MemoryConfig {
        self.config
    }

    /// The journal stays within its capacity.
    pub open spec fn wf(&self) -> bool {
        self.journal_view().len() <= MAX_JOURNAL_ENTRIES
    }

    /// An empty memory with the given identity.
    pub fn new(identity: String) -> (r: Memory)
        ensures
            r.wf(),
            r.journal_view() == Seq::<EntryView>::empty(),
            r.identity_view() == identity@,
            r.topology_view() == Seq::<Seq<char>>::empty(),
    {
        let r = Memory {
            journal: Vec::new(),
            identity,
            topology: Vec::new(),
            config: MemoryConfig::default(),
        };
        assert(views(r.topology@) =~= Seq::<Seq<char>>::empty());
        assert(r.journal_view() =~= Seq::<EntryView>::empty());
        r
    }

    /// Appends an entry, dropping the oldest past the capacity.
    pub fn add(&mut self, entry: MemoryEntry)
        requires
            old(self).wf(),
        ensures
            final(self).wf(),
            final(self).journal_view() == journal_add(old(self).journal_view(), entry@),
            final(self).identity_view() == old(self).identity_view(),
            final(self).topology_view() == old(self).topology_view(),
    {
        self.journal.push(entry);
        if self.journal.len() > MAX_JOURNAL_ENTRIES {
            self.journal.remove(0);
        }
        proof {
            let pushed = old(self).journal_view().push(entry@);
            if pushed.len() > MAX_JOURNAL_ENTRIES {
                assert(self.journal_view() =~= keep_last(pushed, MAX_JOURNAL_ENTRIES as nat));
            } else {
                assert(self.journal_view() =~= pushed);
            }
        }
    }

    /// Records system information.
    pub fn add_system_info(&mut self, info: &str)
        requires
            old(self).wf(),
        ensures
            final(self).wf(),
            final(self).journal_view() == journal_add(old(self).journal_view(), EntryView::SystemInfo(info@)),
            final(self).identity_view() == old(self).identity_view(),
            final(self).topology_view() == old(self).topology_view(),
    {
        self.add(MemoryEntry::SystemInfo(String::from_str(info)));
    }

    /// Records a user's request and the answer given.
    pub fn add_interaction(&mut self, query: &str, response: &str)
        requires
            old(self).wf(),
        ensures
            final(self).wf(),
            final(self).journal_view() == journal_add(
                old(self).journal_view(),
                EntryView::UserInteraction { query: query@, response: response@ },
            ),
            final(self).identity_view() == old(self).identity_view(),
            final(self).topology_view() == old(self).topology_view(),
    {
        self.add(MemoryEntry::UserInteraction {
            query: String::from_str(query),
            response: String::from_str(response),
        });
    }

    /// Records what a tool returned.
    pub fn add_tool_result(&mut self, tool: &str, result: &str)
        requires
            old(self).wf(),
        ensures
            final(self).wf(),
            final(self).journal_view() == journal_add(
                old(self).journal_view(),
                EntryView::ToolResult { tool: tool@, result: result@ },
            ),
            final(self).identity_view() == old(self).identity_view(),
            final(self).topology_view() == old(self).topology_view(),
    {
        self.add(MemoryEntry::ToolResult { tool: String::from_str(tool), result: String::from_str(result) });
    }

    /// Records an observation.
    pub fn add_observation(&mut self, observation: &str)
        requires
            old(self).wf(),
        ensures
            final(self).wf(),
            final(self).journal_view() == journal_add(old(self).journal_view(), EntryView::Observation(observation@)),
            final(self).identity_view() == old(self).identity_view(),
            final(self).topology_view() == old(self).topology_view(),
    {
        self.add(MemoryEntry::Observation(String::from_str(observation)));
    }

    /// Records an error or warning.
    pub fn add_error(&mut self, error: &str)
        requires
            old(self).wf(),
        ensures
            final(self).wf(),
            final(self).journal_view() == journal_add(old(self).journal_view(), EntryView::Error(error@)),
            final(self).identity_view() == old(self).identity_view(),
            final(self).topology_view() == old(self).topology_view(),
    {
        self.add(MemoryEntry::Error(String::from_str(error)));
    }

    /// Adds a line to the known topology; the journal is left as it is.
    pub fn add_topology(&mut self, info: &str)
        requires
            old(self).wf(),
        ensures
            final(self).wf(),
            final(self).journal_view() == old(self).journal_view(),
            final(self).identity_view() == old(self).identity_view(),
            final(self).topology_view() == old(self).topology_view().push(info@),
    {
        self.topology.push(String::from_str(info));
        assert(views(self.topology@) =~= views(old(self).topology@).push(info@));
    }

    /// Replaces the identity.
    pub fn set_identity(&mut self, identity: &str)
        requires
            old(self).wf(),
        ensures
            final(self).wf(),
            final(self).journal_view() == old(self).journal_view(),
            final(self).identity_view() == identity@,
            final(self).topology_view() == old(self).topology_view(),
    {
        self.identity = String::from_str(identity);
    }

    /// The context section for the system prompt.
    pub fn context(&self) -> (r: String)
        requires
            self.wf(),
        ensures
            r@ == context_of(self.identity_view(), self.topology_view(), self.journal_view()),
    {
        let ghost jv = self.journal_view();
        let mut parts: Vec<String> = Vec::new();
        if !self.identity.as_str().is_empty() {
            parts.push(String::from_str("## Identity\n").concat(self.identity.as_str()));
        }
        if self.topology.len() > 0 {
            let topo = join_strings(&self.topology, "\n");
            parts.push(String::from_str("## Known Topology\n").concat(topo.as_str()));
        }
        let n = self.journal.len();
        let start: usize = if n > RECENT_ENTRIES { n - RECENT_ENTRIES } else { 0 };
        let ghost recent = keep_last(jv, RECENT_ENTRIES as nat);
        assert(recent =~= jv.subrange(start as int, n as int));
        let mut lines: Vec<String> = Vec::new();
        let mut i: usize = start;
        while i < n
            invariant
                start <= i <= n,
                n == self.journal@.len(),
                jv == self.journal_view(),
                recent == jv.subrange(start as int, n as int),
                lines@.len() == i - start,
                views(lines@) == recent.subrange(0, i - start).map_values(|e: EntryView| "- "@ + render_entry(e)),
            decreases n - i,
        {
            let rendered = self.journal[i].render();
            let line = String::from_str("- ").concat(rendered.as_str());
            assert(line@ == "- "@ + render_entry(jv[i as int]));
            let ghost prev = lines@;
            lines.push(line);
            i = i + 1;
            proof {
                let f = |e: EntryView| "- "@ + render_entry(e);
                let k = i - 1 - start;
                assert(views(lines@) =~= views(prev).push(line@));
                assert(recent.subrange(0, k + 1) =~= recent.subrange(0, k).push(recent[k]));
                assert(recent.subrange(0, k + 1).map_values(f) =~= recent.subrange(0, k).map_values(f).push(f(recent[k])));
                assert(jv[i - 1] == self.journal@[i - 1]@);
                assert(recent[i - 1 - start] == jv[i - 1]);
                assert(lines@[i - 1 - start]@ == "- "@ + render_entry(recent[i - 1 - start]));
                assert(views(lines@) =~= recent.subrange(0, i - start).map_values(|e: EntryView| "- "@ + render_entry(e)));
            }
        }
        assert(recent.subrange(0, n - start) =~= recent);
        if n > 0 {
            let hist = join_strings(&lines, "\n");
            parts.push(String::from_str("## Recent History\n").concat(hist.as_str()));
        }
        let r = join_strings(&parts, "\n\n");
        proof {
            let id_part: Seq<Seq<char>> = if self.identity_view().len() > 0 {
                seq!["## Identity\n"@ + self.identity_view()]
            } else {
                Seq::empty()
            };
            let topo_part: Seq<Seq<char>> = if self.topology_view().len() > 0 {
                seq!["## Known Topology\n"@ + join(self.topology_view(), "\n"@)]
            } else {
                Seq::empty()
            };
            let hist_part: Seq<Seq<char>> = if recent.len() > 0 {
                seq!["## Recent History\n"@ + join(recent.map_values(|e: EntryView| "- "@ + render_entry(e)), "\n"@)]
            } else {
                Seq::empty()
            };
            assert(views(parts@) =~= id_part + topo_part + hist_part);
        }
        r
    }

    /// The whole journal, oldest first.
    pub fn journal_entries(&self) -> (r: Vec<&MemoryEntry>)
        ensures
            r@.len() == self.journal_view().len(),
            forall|i: int| 0 <= i < r@.len() ==> (#[trigger] r@[i])@ == self.journal_view()[i],
    {
        let mut r: Vec<&MemoryEntry> = Vec::new();
        let mut i: usize = 0;
        while i < self.journal.len()
            invariant
                i <= self.journal@.len(),
                r@.len() == i,
                forall|k: int| 0 <= k < i ==> (#[trigger] r@[k])@ == self.journal_view()[k],
            decreases self.journal@.len() - i,
        {
            r.push(&self.journal[i]);
            i = i + 1;
        }
        r
    }

    /// The settings the memory was made with.
    pub fn config(&self) -> (r: &MemoryConfig)
        ensures
            *r == self.config_view(),
    {
        &self.config
    }
}

impl Default for Memory {
    fn default() -> (r: Memory)
        ensures
            r.wf(),
            r.journal_view() == Seq::<EntryView>::empty(),
            r.identity_view() == Seq::<char>::empty(),
            r.topology_view() == Seq::<Seq<char>>::empty(),
    {
        Memory::new(String::new())
    }
}

} // verus!
