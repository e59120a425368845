//! Configuration: the vault location, where papers go, and the topics
//! offered on the start screen; and the decisions of the interactive
//! directory browser used during first-run setup.
use vstd::prelude::*;
use vstd::string::*;

use crate::fetch::strings_view;
use crate::text::{chars_of, concat, has_prefix, starts_with, string_of, string_of_range};

verus! {

/// A named search offered on the start screen.
#[derive(Debug, Clone)]
pub struct Topic {
    pub name: String,
    pub query: String,
}

/// The mathematical value of a [`Topic`].
pub struct TopicView {
    pub name: Seq<char>,
    pub query: Seq<char>,
}

impl View for Topic {
    type V = TopicView;

    open spec fn view(&self) -> TopicView {
        TopicView { name: self.name@, query: self.query@ }
    }
}

impl Topic {
    /// A topic with the given name and search query.
    pub fn new(name: &str, query: &str) -> (t: Topic)
        ensures
            t@ == (TopicView { name: name@, query: query@ }),
    {
        Topic { name: String::from_str(name), query: String::from_str(query) }
    }

    /// A copy of this topic.
    pub fn duplicate(&self) -> (t: Topic)
        ensures
            t@ == self@,
    {
        Topic { name: self.name.clone(), query: self.query.clone() }
    }
}

/// The views of a sequence of topics.
pub open spec fn topics_view(v: Seq<Topic>) -> Seq<TopicView> {
    v.map_values(|t: Topic| t@)
}

/// Where Folio writes, and what it offers to search.
#[derive(Debug, Clone)]
pub struct Config {
    /// The root folder of the Obsidian vault.
    pub obsidian_vault: String,
    /// The folder for imported papers, relative to the vault.
    pub papers_dir: String,
    pub semantic_scholar_api_key: Option<String>,
    pub topics: Vec<Topic>,
}

/// The mathematical value of a [`Config`].
pub struct ConfigView {
    pub obsidian_vault: Seq<char>,
    pub papers_dir: Seq<char>,
    pub semantic_scholar_api_key: Option<Seq<char>>,
    pub topics: Seq<TopicView>,
}

impl View for Config {
    type V = ConfigView;

    open spec fn view(&self) -> ConfigView {
        ConfigView {
            obsidian_vault: self.obsidian_vault@,
            papers_dir: self.papers_dir@,
            semantic_scholar_api_key: crate::fetch::opt_view(self.semantic_scholar_api_key),
            topics: topics_view(self.topics@),
        }
    }
}

/// The topics a fresh configuration offers, in order.
pub open spec fn default_topics() -> Seq<TopicView> {
    seq![
        TopicView { name: "Database Storage Engines"@, query: "LSM tree B-tree WAL compaction storage engine"@ },
        TopicView { name: "Database Transactions"@, query: "MVCC transactions OCC 2PL serializability"@ },
        TopicView { name: "Database Query Optimization"@, query: "query optimizer cardinality estimation join ordering"@ },
        TopicView { name: "Database OLAP & Columnar"@, query: "columnar execution vectorized processing OLAP parquet"@ },
        TopicView { name: "Database Time-Series"@, query: "time series database compression retention downsampling"@ },
        TopicView { name: "Database Streaming"@, query: "stream processing event streaming materialized views"@ },
        TopicView { name: "Database Distributed"@, query: "distributed SQL replication sharding consensus"@ },
        TopicView { name: "Database NewSQL"@, query: "newsql cockroachdb spanner distributed transactions"@ },
        TopicView { name: "Distributed Consensus"@, query: "raft paxos byzantine consensus distributed systems"@ },
        TopicView { name: "Distributed Replication"@, query: "leader follower replication quorum anti entropy"@ },
        TopicView { name: "Distributed Scheduling"@, query: "distributed scheduler resource allocation cluster orchestration"@ },
        TopicView { name: "Distributed Failure Detection"@, query: "failure detector gossip heartbeat distributed systems"@ },
        TopicView { name: "Distributed Service Meshes"@, query: "service mesh envoy istio traffic management"@ },
        TopicView { name: "Distributed Coordination"@, query: "zookeeper etcd coordination distributed locking"@ },
        TopicView { name: "Distributed Event-Driven"@, query: "event driven architecture pubsub message queues kafka"@ },
        TopicView { name: "Distributed Stream Processing"@, query: "flink beam stream processing exactly once"@ },
        TopicView { name: "Networking Transport"@, query: "TCP QUIC congestion control networking"@ },
        TopicView { name: "Networking Application"@, query: "HTTP RPC gRPC protocol design"@ },
        TopicView { name: "Networking Datacenter"@, query: "datacenter networking RDMA leaf spine topology"@ },
        TopicView { name: "Networking Load Balancing"@, query: "load balancing consistent hashing traffic routing"@ },
        TopicView { name: "Networking CDNs & Edge"@, query: "content delivery network edge caching"@ },
        TopicView { name: "Networking Virtualization"@, query: "SDN NFV programmable networking"@ },
        TopicView { name: "OS Kernel Internals"@, query: "kernel scheduler interrupts syscall internals"@ },
        TopicView { name: "OS Memory Management"@, query: "virtual memory paging allocator NUMA"@ },
        TopicView { name: "OS Filesystems"@, query: "filesystem journaling ext4 btrfs zfs"@ },
        TopicView { name: "OS IO Systems"@, query: "io_uring async IO DMA polling"@ },
        TopicView { name: "OS Containers & Isolation"@, query: "cgroups namespaces container isolation"@ },
        TopicView { name: "OS Virtualization"@, query: "hypervisor KVM virtualization"@ },
        TopicView { name: "Performance Caching"@, query: "cache eviction cache coherence distributed cache"@ },
        TopicView { name: "Performance Memory"@, query: "NUMA cache locality memory hierarchy"@ },
        TopicView { name: "Performance Engineering"@, query: "latency throughput tail latency profiling"@ },
        TopicView { name: "Performance Observability"@, query: "distributed tracing observability profiling telemetry"@ },
        TopicView { name: "Compilers Optimizations"@, query: "SSA compiler optimization IR inlining"@ },
        TopicView { name: "Compilers Runtimes"@, query: "JVM garbage collection runtime systems"@ },
        TopicView { name: "Compilers Garbage Collection"@, query: "garbage collector concurrent GC memory reclamation"@ },
        TopicView { name: "Compilers JIT Compilation"@, query: "JIT runtime optimization speculative execution"@ },
        TopicView { name: "Cloud Scheduling"@, query: "kubernetes scheduler autoscaling orchestration"@ },
        TopicView { name: "Cloud Serverless"@, query: "serverless FaaS cold starts lambda"@ },
        TopicView { name: "Cloud Infrastructure"@, query: "infrastructure as code terraform orchestration"@ },
        TopicView { name: "Cloud Reliability (SRE)"@, query: "SRE reliability fault tolerance chaos engineering"@ },
        TopicView { name: "Security Authentication"@, query: "authentication OAuth OIDC SSO identity"@ },
        TopicView { name: "Security Distributed"@, query: "zero trust distributed auth secure systems"@ },
        TopicView { name: "Security Cryptography"@, query: "cryptography distributed cryptographic protocols"@ },
        TopicView { name: "Search Engines"@, query: "inverted index retrieval ranking BM25"@ },
        TopicView { name: "Search Vector Databases"@, query: "ANN HNSW vector similarity search"@ },
        TopicView { name: "Search Information Retrieval"@, query: "retrieval systems ranking relevance"@ },
        TopicView { name: "AI Inference Systems"@, query: "LLM inference batching KV cache serving"@ },
        TopicView { name: "AI GPU Systems"@, query: "GPU scheduling CUDA memory systems"@ },
        TopicView { name: "AI Distributed Training"@, query: "distributed deep learning allreduce training systems"@ },
        TopicView { name: "AI Model Serving"@, query: "model serving inference infrastructure"@ }
    ]
}

/// A fresh configuration: no vault yet, papers in `Papers`, no API key,
/// and the built-in topics.
pub open spec fn default_config() -> ConfigView {
    ConfigView {
        obsidian_vault: seq![],
        papers_dir: "Papers"@,
        semantic_scholar_api_key: None,
        topics: default_topics(),
    }
}

/// The built-in topics.
#[verifier::rlimit(100)]
pub fn default_topic_list() -> (topics: Vec<Topic>)
    ensures
        topics_view(topics@) == default_topics(),
{
    let mut topics: Vec<Topic> = Vec::new();
    topics.push(Topic::new("Database Storage Engines", "LSM tree B-tree WAL compaction storage engine"));
    topics.push(Topic::new("Database Transactions", "MVCC transactions OCC 2PL serializability"));
    topics.push(Topic::new("Database Query Optimization", "query optimizer cardinality estimation join ordering"));
    topics.push(Topic::new("Database OLAP & Columnar", "columnar execution vectorized processing OLAP parquet"));
    topics.push(Topic::new("Database Time-Series", "time series database compression retention downsampling"));
    topics.push(Topic::new("Database Streaming", "stream processing event streaming materialized views"));
    topics.push(Topic::new("Database Distributed", "distributed SQL replication sharding consensus"));
    topics.push(Topic::new("Database NewSQL", "newsql cockroachdb spanner distributed transactions"));
    topics.push(Topic::new("Distributed Consensus", "raft paxos byzantine consensus distributed systems"));
    topics.push(Topic::new("Distributed Replication", "leader follower replication quorum anti entropy"));
    topics.push(Topic::new("Distributed Scheduling", "distributed scheduler resource allocation cluster orchestration"));
    topics.push(Topic::new("Distributed Failure Detection", "failure detector gossip heartbeat distributed systems"));
    topics.push(Topic::new("Distributed Service Meshes", "service mesh envoy istio traffic management"));
    topics.push(Topic::new("Distributed Coordination", "zookeeper etcd coordination distributed locking"));
    topics.push(Topic::new("Distributed Event-Driven", "event driven architecture pubsub message queues kafka"));
    topics.push(Topic::new("Distributed Stream Processing", "flink beam stream processing exactly once"));
    topics.push(Topic::new("Networking Transport", "TCP QUIC congestion control networking"));
    topics.push(Topic::new("Networking Application", "HTTP RPC gRPC protocol design"));
    topics.push(Topic::new("Networking Datacenter", "datacenter networking RDMA leaf spine topology"));
    topics.push(Topic::new("Networking Load Balancing", "load balancing consistent hashing traffic routing"));
    topics.push(Topic::new("Networking CDNs & Edge", "content delivery network edge caching"));
    topics.push(Topic::new("Networking Virtualization", "SDN NFV programmable networking"));
    topics.push(Topic::new("OS Kernel Internals", "kernel scheduler interrupts syscall internals"));
    topics.push(Topic::new("OS Memory Management", "virtual memory paging allocator NUMA"));
    topics.push(Topic::new("OS Filesystems", "filesystem journaling ext4 btrfs zfs"));
    topics.push(Topic::new("OS IO Systems", "io_uring async IO DMA polling"));
    topics.push(Topic::new("OS Containers & Isolation", "cgroups namespaces container isolation"));
    topics.push(Topic::new("OS Virtualization", "hypervisor KVM virtualization"));
    topics.push(Topic::new("Performance Caching", "cache eviction cache coherence distributed cache"));
    topics.push(Topic::new("Performance Memory", "NUMA cache locality memory hierarchy"));
    topics.push(Topic::new("Performance Engineering", "latency throughput tail latency profiling"));
    topics.push(Topic::new("Performance Observability", "distributed tracing observability profiling telemetry"));
    topics.push(Topic::new("Compilers Optimizations", "SSA compiler optimization IR inlining"));
    topics.push(Topic::new("Compilers Runtimes", "JVM garbage collection runtime systems"));
    topics.push(Topic::new("Compilers Garbage Collection", "garbage collector concurrent GC memory reclamation"));
    topics.push(Topic::new("Compilers JIT Compilation", "JIT runtime optimization speculative execution"));
    topics.push(Topic::new("Cloud Scheduling", "kubernetes scheduler autoscaling orchestration"));
    topics.push(Topic::new("Cloud Serverless", "serverless FaaS cold starts lambda"));
    topics.push(Topic::new("Cloud Infrastructure", "infrastructure as code terraform orchestration"));
    topics.push(Topic::new("Cloud Reliability (SRE)", "SRE reliability fault tolerance chaos engineering"));
    topics.push(Topic::new("Security Authentication", "authentication OAuth OIDC SSO identity"));
    topics.push(Topic::new("Security Distributed", "zero trust distributed auth secure systems"));
    topics.push(Topic::new("Security Cryptography", "cryptography distributed cryptographic protocols"));
    topics.push(Topic::new("Search Engines", "inverted index retrieval ranking BM25"));
    topics.push(Topic::new("Search Vector Databases", "ANN HNSW vector similarity search"));
    topics.push(Topic::new("Search Information Retrieval", "retrieval systems ranking relevance"));
    topics.push(Topic::new("AI Inference Systems", "LLM inference batching KV cache serving"));
    topics.push(Topic::new("AI GPU Systems", "GPU scheduling CUDA memory systems"));
    topics.push(Topic::new("AI Distributed Training", "distributed deep learning allreduce training systems"));
    topics.push(Topic::new("AI Model Serving", "model serving inference infrastructure"));
    assert(topics_view(topics@) =~= default_topics());
    topics
}

impl Default for Config {
    fn default() -> (c: Config)
        ensures
            c@ == default_config(),
    {
        Config {
            obsidian_vault: String::new(),
            papers_dir: String::from_str("Papers"),
            semantic_scholar_api_key: None,
            topics: default_topic_list(),
        }
    }
}


// ---------------------------------------------------------------------------
// The setup wizard's directory browser
// ---------------------------------------------------------------------------

/// Lexicographic order on character sequences (the order of file names).
pub open spec fn lex_le(a: Seq<char>, b: Seq<char>) -> bool
    decreases a.len(),
{
    if a.len() == 0 {
        true
    } else if b.len() == 0 {
        false
    } else if a[0] != b[0] {
        a[0] < b[0]
    } else {
        lex_le(a.drop_first(), b.drop_first())
    }
}

proof fn lemma_lex_total(a: Seq<char>, b: Seq<char>)
    ensures
        lex_le(a, b) || lex_le(b, a),
    decreases a.len(),
{
    if a.len() > 0 && b.len() > 0 && a[0] == b[0] {
        lemma_lex_total(a.drop_first(), b.drop_first());
    }
}

fn lex_le_exec(a: &Vec<char>, b: &Vec<char>) -> (r: bool)
    ensures
        r == lex_le(a@, b@),
{
    let mut i: usize = 0;
    assert(a@.skip(0) == a@ && b@.skip(0) == b@);
    while i < a.len() && i < b.len() && a[i] == b[i]
        invariant
            i <= a.len(),
            i <= b.len(),
            lex_le(a@, b@) == lex_le(a@.skip(i as int), b@.skip(i as int)),
        decreases a.len() - i,
    {
        assert(a@.skip(i as int).drop_first() == a@.skip(i + 1));
        assert(b@.skip(i as int).drop_first() == b@.skip(i + 1));
        i = i + 1;
    }
    if i == a.len() {
        true
    } else if i == b.len() {
        false
    } else {
        a[i] < b[i]
    }
}

/// Each name is at most the next one.
pub open spec fn names_sorted(s: Seq<Seq<char>>) -> bool {
    forall|i: int| 0 <= i < s.len() - 1 ==> lex_le(#[trigger] s[i], s[i + 1])
}

/// `names` in lexicographic order (what sorting the paths of one folder's
/// entries gives).
pub fn sort_names(names: Vec<String>) -> (r: Vec<String>)
    ensures
        names_sorted(strings_view(r@)),
        strings_view(r@).to_multiset() == strings_view(names@).to_multiset(),
{
    broadcast use vstd::seq_lib::group_to_multiset_ensures;
    broadcast use vstd::multiset::group_multiset_axioms;

    let mut r: Vec<String> = Vec::new();
    let mut i: usize = 0;
    let ghost all = strings_view(names@);
    assert(strings_view(r@) =~= Seq::<Seq<char>>::empty());
    assert(all.take(0) =~= Seq::<Seq<char>>::empty());
    while i < names.len()
        invariant
            i <= names.len(),
            all == strings_view(names@),
            names_sorted(strings_view(r@)),
            strings_view(r@).to_multiset() == all.take(i as int).to_multiset(),
        decreases names.len() - i,
    {
        let x = names[i].clone();
        let xv = chars_of(x.as_str());
        let mut p: usize = 0;
        while p < r.len() && !lex_le_exec(&xv, &chars_of(r[p].as_str()))
            invariant
                p <= r.len(),
                xv@ == x@,
                forall|k: int| 0 <= k < p ==> !lex_le(x@, #[trigger] r@[k]@),
            decreases r.len() - p,
        {
            p = p + 1;
        }
        let ghost before = strings_view(r@);
        r.insert(p, x);
        let ghost after = strings_view(r@);
        assert(after =~= before.insert(p as int, x@));
        assert(names_sorted(after)) by {
            assert forall|k: int| 0 <= k < after.len() - 1 implies lex_le(#[trigger] after[k], after[k + 1]) by {
                if k + 1 < p {
                    assert(after[k] == before[k] && after[k + 1] == before[k + 1]);
                } else if k + 1 == p {
                    assert(after[k] == before[k]);
                    assert(!lex_le(x@, before[k]));
                    lemma_lex_total(x@, before[k]);
                } else if k == p {
                    assert(after[k + 1] == before[k]);
                } else {
                    assert(after[k] == before[k - 1] && after[k + 1] == before[k]);
                }
            }
        }
        assert(after.remove(p as int) =~= before);
        assert(after.to_multiset() =~= before.to_multiset().insert(x@)) by {
            after.to_multiset_ensures();
            assert(after[p as int] == x@);
            assert(after.remove(p as int).to_multiset() =~= after.to_multiset().remove(x@));
            assert(after.to_multiset().count(x@) > 0);
        }
        assert(all.take(i + 1) =~= all.take(i as int).push(x@));
        proof {
            all.take(i as int).to_multiset_ensures();
        }
        assert(all.take(i + 1).to_multiset() =~= all.take(i as int).to_multiset().insert(x@));
        i = i + 1;
    }
    assert(all.take(names.len() as int) =~= all);
    r
}

/// The browser's entry for a sub-folder.
pub open spec fn folder_option(name: Seq<char>) -> Seq<char> {
    "📂  "@ + name + "/"@
}

/// The entries for the sub-folders, hidden ones (starting with `.`) left out.
pub open spec fn folder_options(names: Seq<Seq<char>>) -> Seq<Seq<char>>
    decreases names.len(),
{
    if names.len() == 0 {
        seq![]
    } else {
        let r = folder_options(names.drop_last());
        if has_prefix(names.last(), "."@) {
            r
        } else {
            r.push(folder_option(names.last()))
        }
    }
}

/// The options offered while browsing `current`: select it, create a new
/// folder (when allowed), go up (when there is a parent), then the visible
/// sub-folders in the order given.
pub open spec fn browser_options(
    current: Seq<char>,
    allow_new: bool,
    has_parent: bool,
    names: Seq<Seq<char>>,
) -> Seq<Seq<char>> {
    seq!["✅  Select: "@ + current + "/"@] + (if allow_new {
        seq!["➕  Create a new folder here"@]
    } else {
        seq![]
    }) + (if has_parent {
        seq!["📁  ../  (go up)"@]
    } else {
        seq![]
    }) + folder_options(names)
}

/// The options of the directory browser for folder `current`, whose
/// sub-folders are `names`.
pub fn directory_options(current: &str, allow_new: bool, has_parent: bool, names: &Vec<String>) -> (r: Vec<String>)
    ensures
        strings_view(r@) == browser_options(current@, allow_new, has_parent, strings_view(names@)),
{
    let mut r: Vec<String> = Vec::new();
    let mut first = concat("✅  Select: ", current);
    first.append("/");
    r.push(first);
    if allow_new {
        r.push(String::from_str("➕  Create a new folder here"));
    }
    if has_parent {
        r.push(String::from_str("📁  ../  (go up)"));
    }
    let ghost head = strings_view(r@);
    assert(head =~= seq!["✅  Select: "@ + current@ + "/"@] + (if allow_new {
        seq!["➕  Create a new folder here"@]
    } else {
        seq![]
    }) + (if has_parent {
        seq!["📁  ../  (go up)"@]
    } else {
        seq![]
    }));
    let ghost all = strings_view(names@);
    let mut i: usize = 0;
    assert(folder_options(all.take(0)) =~= Seq::<Seq<char>>::empty());
    while i < names.len()
        invariant
            i <= names.len(),
            all == strings_view(names@),
            strings_view(r@) == head + folder_options(all.take(i as int)),
        decreases names.len() - i,
    {
        assert(all.take(i + 1).drop_last() == all.take(i as int));
        assert(all.take(i + 1).last() == names@[i as int]@);
        if !starts_with(names[i].as_str(), ".") {
            let mut opt = concat("📂  ", names[i].as_str());
            opt.append("/");
            let ghost prev = strings_view(r@);
            r.push(opt);
            assert(strings_view(r@) =~= prev.push(opt@));
            assert(strings_view(r@) =~= head + folder_options(all.take(i as int)).push(opt@));
        }
        i = i + 1;
    }
    assert(all.take(names.len() as int) == all);
    r
}

/// What the user picked in the browser.
#[derive(Debug)]
pub enum BrowseChoice {
    /// Use the current folder.
    Select,
    /// Create a new folder here.
    CreateFolder,
    /// Go to the parent folder.
    GoUp,
    /// Open the named sub-folder.
    Open(String),
}

/// The mathematical value of a [`BrowseChoice`].
pub enum BrowseChoiceView {
    Select,
    CreateFolder,
    GoUp,
    Open(Seq<char>),
}

impl View for BrowseChoice {
    type V = BrowseChoiceView;

    open spec fn view(&self) -> BrowseChoiceView {
        match self {
            BrowseChoice::Select => BrowseChoiceView::Select,
            BrowseChoice::CreateFolder => BrowseChoiceView::CreateFolder,
            BrowseChoice::GoUp => BrowseChoiceView::GoUp,
            BrowseChoice::Open(n) => BrowseChoiceView::Open(n@),
        }
    }
}

/// `s` without every leading repetition of `p` (`str::trim_start_matches`).
pub open spec fn strip_leading(s: Seq<char>, p: Seq<char>) -> Seq<char>
    decreases s.len(),
{
    if p.len() > 0 && has_prefix(s, p) {
        strip_leading(s.skip(p.len() as int), p)
    } else {
        s
    }
}

/// `s` without its trailing `c`s (`str::trim_end_matches` for one character).
pub open spec fn strip_trailing(s: Seq<char>, c: char) -> Seq<char>
    decreases s.len(),
{
    if s.len() > 0 && s.last() == c {
        strip_trailing(s.drop_last(), c)
    } else {
        s
    }
}

/// What an option means: the marks at the start of the first three kinds,
/// and otherwise the folder name between the folder mark and the slash.
pub open spec fn choice_of(option: Seq<char>) -> BrowseChoiceView {
    if has_prefix(option, "✅"@) {
        BrowseChoiceView::Select
    } else if has_prefix(option, "➕"@) {
        BrowseChoiceView::CreateFolder
    } else if has_prefix(option, "📁"@) {
        BrowseChoiceView::GoUp
    } else {
        BrowseChoiceView::Open(strip_trailing(strip_leading(option, "📂  "@), '/'))
    }
}

fn strip_leading_exec(s: &Vec<char>, p: &Vec<char>) -> (r: usize)
    ensures
        r <= s.len(),
        strip_leading(s@, p@) == s@.skip(r as int),
{
    if p.len() == 0 {
        assert(s@.skip(0) == s@);
        return 0;
    }
    let mut i: usize = 0;
    assert(s@.skip(0) == s@);
    while p.len() <= s.len() - i && crate::text::starts_with(
        string_of_range(s, i, s.len()).as_str(),
        string_of(p).as_str(),
    )
        invariant
            p.len() > 0,
            i <= s.len(),
            strip_leading(s@, p@) == strip_leading(s@.skip(i as int), p@),
        decreases s.len() - i,
    {
        assert(s@.subrange(i as int, s.len() as int) == s@.skip(i as int));
        assert(s@.skip(i as int).skip(p.len() as int) == s@.skip(i + p.len()));
        i = i + p.len();
    }
    proof {
        if p.len() > s.len() - i {
            assert(!has_prefix(s@.skip(i as int), p@));
        } else {
            assert(s@.subrange(i as int, s.len() as int) == s@.skip(i as int));
        }
    }
    i
}

fn strip_trailing_exec(s: &Vec<char>, from: usize, c: char) -> (r: usize)
    requires
        from <= s.len(),
    ensures
        from <= r <= s.len(),
        strip_trailing(s@.subrange(from as int, s.len() as int), c) == s@.subrange(
            from as int,
            r as int,
        ),
{
    let mut j: usize = s.len();
    while j > from && s[j - 1] == c
        invariant
            from <= j <= s.len(),
            strip_trailing(s@.subrange(from as int, s.len() as int), c) == strip_trailing(
                s@.subrange(from as int, j as int),
                c,
            ),
        decreases j,
    {
        assert(s@.subrange(from as int, j as int).drop_last() == s@.subrange(from as int, j - 1));
        j = j - 1;
    }
    j
}

/// What the option `option` picked in the browser means.
pub fn interpret_choice(option: &str) -> (r: BrowseChoice)
    ensures
        r@ == choice_of(option@),
{
    if starts_with(option, "✅") {
        BrowseChoice::Select
    } else if starts_with(option, "➕") {
        BrowseChoice::CreateFolder
    } else if starts_with(option, "📁") {
        BrowseChoice::GoUp
    } else {
        let v = chars_of(option);
        let mark = chars_of("📂  ");
        let from = strip_leading_exec(&v, &mark);
        assert(s_sub(v@, from as int) == v@.skip(from as int));
        let to = strip_trailing_exec(&v, from, '/');
        BrowseChoice::Open(string_of_range(&v, from, to))
    }
}

spec fn s_sub(s: Seq<char>, from: int) -> Seq<char> {
    s.subrange(from, s.len() as int)
}

/// A sub-folder offered by the browser is read back as that folder: picking
/// the entry for `name` opens `name` (folder names hold no `/`; a name that
/// itself begins with the folder mark is the one exception).
pub proof fn law_folder_option_opens_its_folder(name: Seq<char>)
    requires
        forall|i: int| 0 <= i < name.len() ==> name[i] != '/',
        !has_prefix(name, "📂  "@),
    ensures
        choice_of(folder_option(name)) == BrowseChoiceView::Open(name),
{
    let mark = "📂  "@;
    let o = folder_option(name);
    reveal_strlit("📂  ");
    reveal_strlit("✅");
    reveal_strlit("➕");
    reveal_strlit("📁");
    reveal_strlit("/");
    assert(o[0] == '📂');
    assert(!has_prefix(o, "✅"@)) by {
        if has_prefix(o, "✅"@) {
            assert(o.take(1)[0] == "✅"@[0]);
        }
    }
    assert(!has_prefix(o, "➕"@)) by {
        if has_prefix(o, "➕"@) {
            assert(o.take(1)[0] == "➕"@[0]);
        }
    }
    assert(!has_prefix(o, "📁"@)) by {
        if has_prefix(o, "📁"@) {
            assert(o.take(1)[0] == "📁"@[0]);
        }
    }
    assert(has_prefix(o, mark)) by {
        assert(o.take(mark.len() as int) =~= mark);
    }
    assert(o.skip(mark.len() as int) =~= name + "/"@);
    let rest = name + "/"@;
    assert(strip_leading(o, mark) == strip_leading(rest, mark));
    assert(!has_prefix(rest, mark)) by {
        if has_prefix(rest, mark) {
            if name.len() >= mark.len() {
                assert(name.take(mark.len() as int) =~= rest.take(mark.len() as int));
            } else {
                assert(rest[name.len() as int] == '/');
                assert(rest.take(mark.len() as int)[name.len() as int] == '/');
                assert(mark[name.len() as int] != '/');
            }
        }
    }
    assert(strip_leading(rest, mark) == rest);
    assert(rest.drop_last() =~= name);
    if name.len() > 0 {
        assert(name.last() != '/');
        assert(strip_trailing(name, '/') == name);
    }
    assert(strip_trailing(rest, '/') == strip_trailing(name, '/'));
}

/// The question shown above the browser: the prompt and the current folder.
pub fn browse_prompt(prompt: &str, current: &str) -> (r: String)
    ensures
        r@ == prompt@ + "  ["@ + current@ + "]"@,
{
    let mut r = concat(prompt, "  [");
    r.append(current);
    r.append("]");
    r
}

/// `s` without leading and trailing `c`s (`str::trim_matches` for one character).
pub open spec fn trim_char(s: Seq<char>, c: char) -> Seq<char> {
    strip_trailing(strip_leading(s, seq![c]), c)
}

/// The papers folder as stored in the configuration: the chosen folder,
/// relative to the vault, without slashes at either end.
pub fn clean_papers_dir(relative: &str) -> (r: String)
    ensures
        r@ == trim_char(relative@, '/'),
{
    let v = chars_of(relative);
    let slash = chars_of("/");
    proof {
        reveal_strlit("/");
        assert(slash@ =~= seq!['/']);
    }
    let from = strip_leading_exec(&v, &slash);
    let to = strip_trailing_exec(&v, from, '/');
    string_of_range(&v, from, to)
}

} // verus!
