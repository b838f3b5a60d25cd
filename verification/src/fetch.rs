//! The protocol command negotiation engine: which optional features a
//! client enables for a request, which argument lines the request opens
//! with, and which caller-supplied arguments are legal under the
//! negotiated protocol version.

use vstd::prelude::*;

use crate::capabilities::{caps_has, caps_value, CapView, Capabilities, Protocol};
use crate::strutil::{spec_split, split_all, str_eq, str_starts_with, views_of};

verus! {

/// Mathematical view of one selected feature.
pub ghost struct FeatureView {
    pub name: Seq<char>,
    pub value: Option<Seq<char>>,
}

/// A capability the client has decided to activate for the current
/// request: a name with an optional value.
#[derive(Debug, PartialEq, Eq)]
pub struct Feature {
    pub name: String,
    pub value: Option<String>,
}

impl View for Feature {
    type V = FeatureView;

    open spec fn view(&self) -> FeatureView {
        FeatureView {
            name: self.name@,
            value: match self.value {
                Some(v) => Some(v@),
                None => None,
            },
        }
    }
}

/// The views of a list of features.
pub open spec fn feature_views(v: Seq<Feature>) -> Seq<FeatureView> {
    v.map_values(|f: Feature| f@)
}

/// The client-identification feature: the fixed `agent` name and the
/// client's version string.
pub open spec fn agent_view() -> FeatureView {
    FeatureView { name: "agent"@, value: Some("git/gitcore-0.1.0"@) }
}

/// The client-identification feature, appended unconditionally as the last
/// selected feature of every request.
pub fn agent() -> (r: Feature)
    ensures
        r@ == agent_view(),
{
    Feature { name: "agent".to_owned(), value: Some("git/gitcore-0.1.0".to_owned()) }
}

/// A request type of the smart transport.
#[derive(Debug, Clone, Copy, PartialEq, Eq)]
pub enum Command {
    /// List references on the remote.
    LsRefs,
    /// Fetch a pack of objects.
    Fetch,
}

/// The name under which a command travels on the wire.
pub open spec fn wire_name(cmd: Command) -> Seq<char> {
    match cmd {
        Command::LsRefs => "ls-refs"@,
        Command::Fetch => "fetch"@,
    }
}

/// The canonical V1 candidate table of the fetch command, in output
/// priority order. `no-progress` and `include-tag` stand in the table of
/// known capabilities but are never auto-selected, and each
/// mutually-exclusive pair is resolved toward its stronger member.
pub open spec fn v1_fetch_candidates() -> Seq<Seq<char>> {
    seq![
        "multi_ack"@,
        "thin-pack"@,
        "side-band"@,
        "side-band-64k"@,
        "ofs-delta"@,
        "shallow"@,
        "deepen-since"@,
        "deepen-not"@,
        "deepen-relative"@,
        "no-progress"@,
        "include-tag"@,
        "multi_ack_detailed"@,
        "allow-tip-sha1-in-want"@,
        "allow-reachable-sha1-in-want"@,
        "no-done"@,
        "filter"@,
    ]
}

/// The sub-feature tokens the client recognizes in a V2 fetch capability
/// value.
pub open spec fn v2_fetch_candidates() -> Seq<Seq<char>> {
    seq!["shallow"@, "filter"@, "ref-in-want"@, "sideband-all"@, "packfile-uris"@]
}

/// The candidate capabilities a command may select under a protocol
/// version. The ref-listing command has no optional features.
pub open spec fn candidates(cmd: Command, version: Protocol) -> Seq<Seq<char>> {
    match cmd {
        Command::LsRefs => Seq::empty(),
        Command::Fetch => match version {
            Protocol::V1 => v1_fetch_candidates(),
            Protocol::V2 => v2_fetch_candidates(),
        },
    }
}

/// Whether a V1 candidate is selected: it must be advertised, must not be
/// the weaker member of an advertised mutually-exclusive pair, and must
/// not be one of the capabilities the client never auto-enables.
pub open spec fn v1_selects(caps: Seq<CapView>, name: Seq<char>) -> bool {
    &&& caps_has(caps, name)
    &&& !(name == "multi_ack"@ && caps_has(caps, "multi_ack_detailed"@))
    &&& !(name == "side-band"@ && caps_has(caps, "side-band-64k"@))
    &&& name != "no-progress"@
    &&& name != "include-tag"@
}

/// A feature with no value.
pub open spec fn plain_feature(name: Seq<char>) -> FeatureView {
    FeatureView { name, value: None }
}

/// The V1 selection: the candidates that `v1_selects` admits, in table
/// order.
pub open spec fn v1_selection(caps: Seq<CapView>, cands: Seq<Seq<char>>) -> Seq<FeatureView>
    decreases cands.len(),
{
    if cands.len() == 0 {
        Seq::empty()
    } else {
        let rest = v1_selection(caps, cands.drop_last());
        if v1_selects(caps, cands.last()) {
            rest.push(plain_feature(cands.last()))
        } else {
            rest
        }
    }
}

/// The V2 selection: the recognized tokens of the server's sub-feature
/// list, in the order the server listed them.
pub open spec fn v2_selection(cmd: Command, tokens: Seq<Seq<char>>) -> Seq<FeatureView>
    decreases tokens.len(),
{
    if tokens.len() == 0 {
        Seq::empty()
    } else {
        let rest = v2_selection(cmd, tokens.drop_last());
        if candidates(cmd, Protocol::V2).contains(tokens.last()) {
            rest.push(plain_feature(tokens.last()))
        } else {
            rest
        }
    }
}

/// The features selected before the client-identification feature is
/// appended.
pub open spec fn spec_selected(cmd: Command, version: Protocol, caps: Seq<CapView>) -> Seq<
    FeatureView,
> {
    match version {
        Protocol::V1 => v1_selection(caps, candidates(cmd, Protocol::V1)),
        Protocol::V2 => match caps_value(caps, wire_name(cmd)) {
            None => Seq::empty(),
            Some(v) => v2_selection(cmd, spec_split(v, ' ')),
        },
    }
}

/// What `default_features` returns: the version's selection with the
/// client-identification feature appended last.
pub open spec fn spec_default_features(cmd: Command, version: Protocol, caps: Seq<CapView>) -> Seq<
    FeatureView,
> {
    spec_selected(cmd, version, caps).push(agent_view())
}

/// The V1 fetch candidate at a table position.
fn v1_candidate(i: usize) -> (r: &'static str)
    requires
        i < 16,
    ensures
        r@ == v1_fetch_candidates()[i as int],
{
    match i {
        0 => "multi_ack",
        1 => "thin-pack",
        2 => "side-band",
        3 => "side-band-64k",
        4 => "ofs-delta",
        5 => "shallow",
        6 => "deepen-since",
        7 => "deepen-not",
        8 => "deepen-relative",
        9 => "no-progress",
        10 => "include-tag",
        11 => "multi_ack_detailed",
        12 => "allow-tip-sha1-in-want",
        13 => "allow-reachable-sha1-in-want",
        14 => "no-done",
        _ => "filter",
    }
}

/// Whether a token is one of the sub-features the command recognizes
/// under V2.
fn v2_recognized(cmd: &Command, token: &str) -> (r: bool)
    ensures
        r == candidates(*cmd, Protocol::V2).contains(token@),
{
    match cmd {
        Command::LsRefs => false,
        Command::Fetch => {
            let r = str_eq(token, "shallow") || str_eq(token, "filter") || str_eq(
                token,
                "ref-in-want",
            ) || str_eq(token, "sideband-all") || str_eq(token, "packfile-uris");
            proof {
                if !r {
                    assert forall|i: int|
                        0 <= i < v2_fetch_candidates().len() implies v2_fetch_candidates()[i]
                        != token@ by {}
                }
            }
            r
        },
    }
}

impl Command {
    /// The name under which this command travels on the wire.
    pub fn as_str(&self) -> (r: &'static str)
        ensures
            r@ == wire_name(*self),
    {
        match self {
            Command::LsRefs => "ls-refs",
            Command::Fetch => "fetch",
        }
    }

    /// The features this command enables by default for the negotiated
    /// protocol version and the server's advertised capability set.
    ///
    /// Under V1 the client walks its canonical candidate table and keeps
    /// every advertised entry that is not dominated by a stronger
    /// advertised alternative; under V2 it keeps every recognized token of
    /// the server's command-scoped sub-feature list, in server order. The
    /// client-identification feature is always appended last.
    pub fn default_features(&self, version: Protocol, server_capabilities: &Capabilities) -> (r:
        Vec<Feature>)
        ensures
            feature_views(r@) == spec_default_features(*self, version, server_capabilities@),
    {
        let ghost caps = server_capabilities@;
        let mut out: Vec<Feature> = Vec::new();
        match version {
            Protocol::V1 => {
                match self {
                    Command::LsRefs => {
                        proof {
                            assert(feature_views(out@) =~= spec_selected(*self, version, caps));
                        }
                    },
                    Command::Fetch => {
                        let has_detailed = server_capabilities.contains("multi_ack_detailed");
                        let has_64k = server_capabilities.contains("side-band-64k");
                        let mut i: usize = 0;
                        proof {
                            assert(v1_fetch_candidates().take(0) =~= Seq::<Seq<char>>::empty());
                        }
                        while i < 16
                            invariant
                                i <= 16,
                                caps == server_capabilities@,
                                has_detailed == caps_has(caps, "multi_ack_detailed"@),
                                has_64k == caps_has(caps, "side-band-64k"@),
                                feature_views(out@) == v1_selection(
                                    caps,
                                    v1_fetch_candidates().take(i as int),
                                ),
                            decreases 16 - i,
                        {
                            let ghost prev = feature_views(out@);
                            let name = v1_candidate(i);
                            let included: bool = if str_eq(name, "no-progress") || str_eq(
                                name,
                                "include-tag",
                            ) {
                                false
                            } else if str_eq(name, "multi_ack") && has_detailed {
                                false
                            } else if str_eq(name, "side-band") && has_64k {
                                false
                            } else {
                                server_capabilities.contains(name)
                            };
                            if included {
                                out.push(Feature { name: name.to_owned(), value: None });
                            }
                            i = i + 1;
                            proof {
                                let taken = v1_fetch_candidates().take(i as int);
                                assert(taken.drop_last() =~= v1_fetch_candidates().take(i - 1));
                                assert(taken.last() == name@);
                                assert(included == v1_selects(caps, name@));
                                if included {
                                    assert(feature_views(out@) =~= prev.push(plain_feature(name@)));
                                }
                            }
                        }
                        proof {
                            assert(v1_fetch_candidates().take(16) =~= v1_fetch_candidates());
                        }
                    },
                }
            },
            Protocol::V2 => {
                let name = self.as_str();
                match server_capabilities.value_of(name) {
                    None => {
                        proof {
                            assert(feature_views(out@) =~= spec_selected(*self, version, caps));
                        }
                    },
                    Some(v) => {
                        let tokens = split_all(v.as_str(), ' ');
                        let ghost toks = spec_split(v@, ' ');
                        let n = tokens.len();
                        let mut i: usize = 0;
                        proof {
                            assert(toks.take(0) =~= Seq::<Seq<char>>::empty());
                        }
                        while i < n
                            invariant
                                i <= n,
                                n == tokens@.len(),
                                views_of(tokens@) == toks,
                                feature_views(out@) == v2_selection(*self, toks.take(i as int)),
                            decreases n - i,
                        {
                            let ghost prev = feature_views(out@);
                            let token: &String = &tokens[i];
                            proof {
                                assert(toks[i as int] == token@);
                            }
                            if v2_recognized(self, token.as_str()) {
                                out.push(
                                    Feature { name: token.as_str().to_owned(), value: None },
                                );
                            }
                            i = i + 1;
                            proof {
                                let taken = toks.take(i as int);
                                assert(taken.drop_last() =~= toks.take(i - 1));
                                assert(taken.last() == token@);
                                if candidates(*self, Protocol::V2).contains(token@) {
                                    assert(feature_views(out@) =~= prev.push(
                                        plain_feature(token@),
                                    ));
                                }
                            }
                        }
                        proof {
                            assert(toks.take(n as int) =~= toks);
                        }
                    },
                }
            },
        }
        let ghost sel = feature_views(out@);
        out.push(agent());
        proof {
            assert(feature_views(out@) =~= sel.push(agent_view()));
        }
        out
    }

    /// The argument lines this command's request always opens with,
    /// derived from the already-selected feature list alone.
    ///
    /// A V2 fetch always requests `thin-pack`, `include-tag` and
    /// `ofs-delta`, then one line per selected feature of a fixed
    /// candidate list; `shallow` and `filter` contribute no line here
    /// because their lines need caller-supplied parameters. A ref listing
    /// always requests symbolic-ref resolution and peeled tag targets.
    pub fn initial_arguments(&self, features: &Vec<Feature>) -> (r: Vec<String>)
        ensures
            views_of(r@) == spec_initial_arguments(*self, feature_views(features@)),
    {
        let ghost fs = feature_views(features@);
        let mut out: Vec<String> = Vec::new();
        match self {
            Command::LsRefs => {
                out.push("symrefs".to_owned());
                out.push("peel".to_owned());
                proof {
                    assert(views_of(out@) =~= spec_initial_arguments(*self, fs));
                }
            },
            Command::Fetch => {
                out.push("thin-pack".to_owned());
                out.push("include-tag".to_owned());
                out.push("ofs-delta".to_owned());
                proof {
                    assert(views_of(out@) =~= seq!["thin-pack"@, "include-tag"@, "ofs-delta"@]);
                    assert(arg_candidates().take(0) =~= Seq::<Seq<char>>::empty());
                }
                let mut i: usize = 0;
                while i < 3
                    invariant
                        i <= 3,
                        fs == feature_views(features@),
                        views_of(out@) == seq!["thin-pack"@, "include-tag"@, "ofs-delta"@]
                            + arg_selection(fs, arg_candidates().take(i as int)),
                    decreases 3 - i,
                {
                    let ghost prev = views_of(out@);
                    let name = arg_candidate(i);
                    if features_contain(features, name) {
                        out.push(name.to_owned());
                    }
                    i = i + 1;
                    proof {
                        let taken = arg_candidates().take(i as int);
                        assert(taken.drop_last() =~= arg_candidates().take(i - 1));
                        assert(taken.last() == name@);
                        if feature_named(fs, name@) {
                            assert(views_of(out@) =~= prev.push(name@));
                            assert(prev.push(name@) =~= seq![
                                "thin-pack"@,
                                "include-tag"@,
                                "ofs-delta"@,
                            ] + arg_selection(fs, taken));
                        }
                    }
                }
                proof {
                    assert(arg_candidates().take(3) =~= arg_candidates());
                }
            },
        }
        out
    }

    /// The number of argument prefixes this command permits under a
    /// protocol version.
    fn allowed_prefix_count(&self, version: Protocol) -> (r: usize)
        ensures
            r == allowed_prefixes(*self, version).len(),
    {
        match self {
            Command::LsRefs => match version {
                Protocol::V1 => 2,
                Protocol::V2 => 3,
            },
            Command::Fetch => 15,
        }
    }

    /// The argument prefix at a table position.
    fn allowed_prefix(&self, version: Protocol, i: usize) -> (r: &'static str)
        requires
            i < allowed_prefixes(*self, version).len(),
        ensures
            r@ == allowed_prefixes(*self, version)[i as int],
    {
        match self {
            Command::LsRefs => match i {
                0 => "symrefs",
                1 => "peel",
                _ => "ref-prefix ",
            },
            Command::Fetch => match i {
                0 => "want ",
                1 => "have ",
                2 => "thin-pack",
                3 => "no-progress",
                4 => "include-tag",
                5 => "ofs-delta",
                6 => "sideband-all",
                7 => "shallow ",
                8 => "deepen ",
                9 => "deepen-relative",
                10 => "deepen-since ",
                11 => "deepen-not ",
                12 => "filter ",
                13 => "want-ref ",
                _ => "packfile-uris ",
            },
        }
    }

    /// Checks each caller-supplied argument line against the table of
    /// argument prefixes this command permits under the negotiated
    /// protocol version.
    ///
    /// A rejected argument is a programming defect in the caller, not a
    /// condition to tolerate: callers must treat an error as fatal and
    /// must not retry, drop the argument, or downgrade the fault. Whether
    /// a prefix is permitted is a fixed property of the command and the
    /// protocol version alone — under V1 the ref listing is an emulation
    /// with no prefix filtering, so a `ref-prefix ` argument is always
    /// illegal there, while under V2 it is always legal — and never of
    /// what the capability set happens to advertise.
    pub fn validate_argument_prefixes_or_panic(
        &self,
        version: Protocol,
        _server_capabilities: &Capabilities,
        arguments: &Vec<String>,
        _features: &Vec<Feature>,
    ) -> (r: Result<(), ArgumentError>)
        ensures
            match r {
                Ok(_) => forall|i: int|
                    0 <= i < arguments@.len() ==> arg_allowed(
                        *self,
                        version,
                        #[trigger] views_of(arguments@)[i],
                    ),
                Err(e) => {
                    &&& e.command@ == wire_name(*self)
                    &&& exists|i: int|
                        {
                            &&& 0 <= i < arguments@.len()
                            &&& !arg_allowed(*self, version, #[trigger] views_of(arguments@)[i])
                            &&& e.argument@ == views_of(arguments@)[i]
                            &&& forall|j: int|
                                0 <= j < i ==> arg_allowed(*self, version, views_of(arguments@)[j])
                        }
                },
            },
    {
        let n = arguments.len();
        let mut i: usize = 0;
        while i < n
            invariant
                i <= n,
                n == arguments@.len(),
                forall|j: int|
                    0 <= j < i ==> arg_allowed(*self, version, #[trigger] views_of(arguments@)[j]),
            decreases n - i,
        {
            let arg: &String = &arguments[i];
            let m = self.allowed_prefix_count(version);
            let mut k: usize = 0;
            let mut found = false;
            while k < m
                invariant
                    k <= m,
                    m == allowed_prefixes(*self, version).len(),
                    found ==> arg_allowed(*self, version, arg@),
                    !found ==> forall|l: int|
                        0 <= l < k ==> !(#[trigger] allowed_prefixes(*self, version)[l]).is_prefix_of(
                            arg@,
                        ),
                ensures
                    found == arg_allowed(*self, version, arg@),
                decreases m - k,
            {
                if str_starts_with(arg.as_str(), self.allowed_prefix(version, k)) {
                    found = true;
                    break ;
                }
                k = k + 1;
            }
            if !found {
                proof {
                    assert(views_of(arguments@)[i as int] == arg@);
                }
                return Err(
                    ArgumentError {
                        command: self.as_str().to_owned(),
                        argument: arg.as_str().to_owned(),
                    },
                );
            }
            proof {
                assert(views_of(arguments@)[i as int] == arg@);
            }
            i = i + 1;
        }
        Ok(())
    }
}

/// A caller-supplied argument the negotiated protocol version does not
/// permit: a programming defect in the caller, carried as the command's
/// wire name and the offending argument line.
#[derive(Debug, PartialEq, Eq)]
pub struct ArgumentError {
    pub command: String,
    pub argument: String,
}

/// True iff the feature list holds a feature of this name.
pub open spec fn feature_named(fs: Seq<FeatureView>, name: Seq<char>) -> bool {
    exists|i: int| 0 <= i < fs.len() && fs[i].name == name
}

/// The argument-line candidates a V2 fetch emits when the matching
/// feature was selected.
pub open spec fn arg_candidates() -> Seq<Seq<char>> {
    seq!["sideband-all"@, "ref-in-want"@, "packfile-uris"@]
}

/// The candidate argument lines whose feature is selected, in candidate
/// order.
pub open spec fn arg_selection(fs: Seq<FeatureView>, cands: Seq<Seq<char>>) -> Seq<Seq<char>>
    decreases cands.len(),
{
    if cands.len() == 0 {
        Seq::empty()
    } else {
        let rest = arg_selection(fs, cands.drop_last());
        if feature_named(fs, cands.last()) {
            rest.push(cands.last())
        } else {
            rest
        }
    }
}

/// What `initial_arguments` returns: a pure function of the command and
/// the already-selected feature list, never of the raw capability set.
pub open spec fn spec_initial_arguments(cmd: Command, fs: Seq<FeatureView>) -> Seq<Seq<char>> {
    match cmd {
        Command::LsRefs => seq!["symrefs"@, "peel"@],
        Command::Fetch => seq!["thin-pack"@, "include-tag"@, "ofs-delta"@] + arg_selection(
            fs,
            arg_candidates(),
        ),
    }
}

/// The argument prefixes a command permits under a protocol version: a
/// fixed per-(command, version) table. The V1 ref listing, an emulation
/// without native prefix filtering, permits no `ref-prefix ` argument;
/// the V2 ref listing always permits it.
pub open spec fn allowed_prefixes(cmd: Command, version: Protocol) -> Seq<Seq<char>> {
    match cmd {
        Command::LsRefs => match version {
            Protocol::V1 => seq!["symrefs"@, "peel"@],
            Protocol::V2 => seq!["symrefs"@, "peel"@, "ref-prefix "@],
        },
        Command::Fetch => seq![
            "want "@,
            "have "@,
            "thin-pack"@,
            "no-progress"@,
            "include-tag"@,
            "ofs-delta"@,
            "sideband-all"@,
            "shallow "@,
            "deepen "@,
            "deepen-relative"@,
            "deepen-since "@,
            "deepen-not "@,
            "filter "@,
            "want-ref "@,
            "packfile-uris "@,
        ],
    }
}

/// True iff some permitted prefix opens the argument line.
pub open spec fn arg_allowed(cmd: Command, version: Protocol, arg: Seq<char>) -> bool {
    exists|i: int|
        0 <= i < allowed_prefixes(cmd, version).len() && (#[trigger] allowed_prefixes(
            cmd,
            version,
        )[i]).is_prefix_of(arg)
}

/// The V2 fetch argument-line candidate at a table position.
fn arg_candidate(i: usize) -> (r: &'static str)
    requires
        i < 3,
    ensures
        r@ == arg_candidates()[i as int],
{
    match i {
        0 => "sideband-all",
        1 => "ref-in-want",
        _ => "packfile-uris",
    }
}

/// Every feature a V1 selection yields is a candidate of the table it was
/// drawn from, and one the selection rule admits.
proof fn lemma_v1_selection_names(caps: Seq<CapView>, cands: Seq<Seq<char>>)
    ensures
        forall|i: int|
            0 <= i < v1_selection(caps, cands).len() ==> cands.contains(
                #[trigger] v1_selection(caps, cands)[i].name,
            ) && v1_selects(caps, v1_selection(caps, cands)[i].name),
    decreases cands.len(),
{
    if cands.len() != 0 {
        lemma_v1_selection_names(caps, cands.drop_last());
        assert(forall|x: Seq<char>|
            cands.drop_last().contains(x) ==> #[trigger] cands.contains(x));
        if v1_selects(caps, cands.last()) {
            assert(cands.contains(cands.last()));
        }
    }
}

/// Every feature a V2 selection yields is a recognized candidate of the
/// command.
proof fn lemma_v2_selection_names(cmd: Command, tokens: Seq<Seq<char>>)
    ensures
        forall|i: int|
            0 <= i < v2_selection(cmd, tokens).len() ==> candidates(cmd, Protocol::V2).contains(
                #[trigger] v2_selection(cmd, tokens)[i].name,
            ),
    decreases tokens.len(),
{
    if tokens.len() != 0 {
        lemma_v2_selection_names(cmd, tokens.drop_last());
    }
}

/// Every candidate name, under either version, is at least six characters
/// long — in particular none of them is the five-character `agent`, and
/// none is the six-character `symref` (the one candidate of that length,
/// `filter`, opens differently).
proof fn lemma_candidates_never_reserved(cmd: Command, version: Protocol)
    ensures
        forall|n: Seq<char>|
            #[trigger] candidates(cmd, version).contains(n) ==> n != "agent"@ && n != "symref"@,
{
    reveal_strlit("agent");
    reveal_strlit("symref");
    reveal_strlit("multi_ack");
    reveal_strlit("thin-pack");
    reveal_strlit("side-band");
    reveal_strlit("side-band-64k");
    reveal_strlit("ofs-delta");
    reveal_strlit("shallow");
    reveal_strlit("deepen-since");
    reveal_strlit("deepen-not");
    reveal_strlit("deepen-relative");
    reveal_strlit("no-progress");
    reveal_strlit("include-tag");
    reveal_strlit("multi_ack_detailed");
    reveal_strlit("allow-tip-sha1-in-want");
    reveal_strlit("allow-reachable-sha1-in-want");
    reveal_strlit("no-done");
    reveal_strlit("filter");
    reveal_strlit("ref-in-want");
    reveal_strlit("sideband-all");
    reveal_strlit("packfile-uris");
    assert forall|n: Seq<char>| #[trigger]
        candidates(cmd, version).contains(n) implies n != "agent"@ && n != "symref"@ by {
        let cands = candidates(cmd, version);
        let j = choose|j: int| 0 <= j < cands.len() && cands[j] == n;
        assert(("agent"@).len() == 5);
        assert(("symref"@).len() == 6);
        assert(("filter"@)[0] == 'f');
        assert(("symref"@)[0] == 's');
    }
}

/// The members of the two mutually-exclusive V1 groups do not recur among
/// the V2 candidates.
proof fn lemma_v2_candidates_no_group_members()
    ensures
        !v2_fetch_candidates().contains("multi_ack"@),
        !v2_fetch_candidates().contains("multi_ack_detailed"@),
        !v2_fetch_candidates().contains("side-band"@),
        !v2_fetch_candidates().contains("side-band-64k"@),
{
    reveal_strlit("multi_ack");
    reveal_strlit("multi_ack_detailed");
    reveal_strlit("side-band");
    reveal_strlit("side-band-64k");
    reveal_strlit("shallow");
    reveal_strlit("filter");
    reveal_strlit("ref-in-want");
    reveal_strlit("sideband-all");
    reveal_strlit("packfile-uris");
    assert(("side-band-64k"@)[0] == 's');
    assert(("packfile-uris"@)[0] == 'p');
    assert(("multi_ack"@).len() == 9);
    assert(("multi_ack_detailed"@).len() == 18);
    assert(("side-band"@).len() == 9);
    assert(("side-band-64k"@).len() == 13);
    assert(("shallow"@).len() == 7);
    assert(("filter"@).len() == 6);
    assert(("ref-in-want"@).len() == 11);
    assert(("sideband-all"@).len() == 12);
    assert(("packfile-uris"@).len() == 13);
    assert forall|j: int| 0 <= j < v2_fetch_candidates().len() implies v2_fetch_candidates()[j]
        != "multi_ack"@ && v2_fetch_candidates()[j] != "multi_ack_detailed"@
        && v2_fetch_candidates()[j] != "side-band"@ && v2_fetch_candidates()[j]
        != "side-band-64k"@ by {
        if j == 0 {
            assert(v2_fetch_candidates()[j] == "shallow"@);
        } else if j == 1 {
            assert(v2_fetch_candidates()[j] == "filter"@);
        } else if j == 2 {
            assert(v2_fetch_candidates()[j] == "ref-in-want"@);
        } else if j == 3 {
            assert(v2_fetch_candidates()[j] == "sideband-all"@);
        } else {
            assert(v2_fetch_candidates()[j] == "packfile-uris"@);
        }
    }
}

/// The default selection never activates two members of one
/// mutually-exclusive group: never both acknowledgment variants, never
/// both side-band variants, for any command, version and capability set.
pub proof fn lemma_default_features_exclusive_groups(
    cmd: Command,
    version: Protocol,
    caps: Seq<CapView>,
)
    ensures
        !(feature_named(spec_default_features(cmd, version, caps), "multi_ack"@) && feature_named(
            spec_default_features(cmd, version, caps),
            "multi_ack_detailed"@,
        )),
        !(feature_named(spec_default_features(cmd, version, caps), "side-band"@) && feature_named(
            spec_default_features(cmd, version, caps),
            "side-band-64k"@,
        )),
{
    reveal_strlit("agent");
    reveal_strlit("multi_ack");
    reveal_strlit("multi_ack_detailed");
    reveal_strlit("side-band");
    reveal_strlit("side-band-64k");
    assert(("agent"@).len() == 5);
    let sel = spec_selected(cmd, version, caps);
    let full = spec_default_features(cmd, version, caps);
    assert(forall|n: Seq<char>|
        feature_named(full, n) ==> #[trigger] feature_named(sel, n) || n == agent_view().name);
    match version {
        Protocol::V1 => {
            lemma_v1_selection_names(caps, candidates(cmd, Protocol::V1));
            assert(forall|n: Seq<char>| #[trigger] feature_named(sel, n) ==> v1_selects(caps, n));
        },
        Protocol::V2 => {
            lemma_v2_candidates_no_group_members();
            match caps_value(caps, wire_name(cmd)) {
                None => {},
                Some(v) => {
                    lemma_v2_selection_names(cmd, spec_split(v, ' '));
                    assert(forall|n: Seq<char>| #[trigger]
                        feature_named(sel, n) ==> candidates(cmd, Protocol::V2).contains(n));
                },
            }
        },
    }
}

/// The default selection always ends with exactly one
/// client-identification feature: the last element is the agent feature,
/// and no earlier element carries the `agent` name — for every command,
/// version and capability set, the empty one included.
pub proof fn lemma_default_features_agent_last(cmd: Command, version: Protocol, caps: Seq<CapView>)
    ensures
        spec_default_features(cmd, version, caps).len() >= 1,
        spec_default_features(cmd, version, caps).last() == agent_view(),
        forall|i: int|
            0 <= i < spec_default_features(cmd, version, caps).len() - 1
                ==> spec_default_features(cmd, version, caps)[i].name != "agent"@,
{
    lemma_candidates_never_reserved(cmd, version);
    let sel = spec_selected(cmd, version, caps);
    match version {
        Protocol::V1 => {
            lemma_v1_selection_names(caps, candidates(cmd, Protocol::V1));
        },
        Protocol::V2 => {
            match caps_value(caps, wire_name(cmd)) {
                None => {},
                Some(v) => {
                    lemma_v2_selection_names(cmd, spec_split(v, ' '));
                },
            }
        },
    }
}

/// The default selection never includes `include-tag`, `no-progress`, or
/// a symbolic-ref advertisement entry, however the server advertises them.
pub proof fn lemma_default_features_never_stacked(
    cmd: Command,
    version: Protocol,
    caps: Seq<CapView>,
)
    ensures
        forall|i: int|
            0 <= i < spec_default_features(cmd, version, caps).len()
                ==> (#[trigger] spec_default_features(cmd, version, caps)[i]).name
                != "include-tag"@ && spec_default_features(cmd, version, caps)[i].name
                != "no-progress"@ && spec_default_features(cmd, version, caps)[i].name
                != "symref"@,
{
    reveal_strlit("agent");
    reveal_strlit("include-tag");
    reveal_strlit("no-progress");
    reveal_strlit("symref");
    reveal_strlit("shallow");
    reveal_strlit("filter");
    reveal_strlit("ref-in-want");
    reveal_strlit("sideband-all");
    reveal_strlit("packfile-uris");
    assert(("agent"@).len() == 5);
    assert(("include-tag"@).len() == 11);
    assert(("no-progress"@).len() == 11);
    assert(("symref"@).len() == 6);
    lemma_candidates_never_reserved(cmd, version);
    let sel = spec_selected(cmd, version, caps);
    match version {
        Protocol::V1 => {
            lemma_v1_selection_names(caps, candidates(cmd, Protocol::V1));
        },
        Protocol::V2 => {
            match caps_value(caps, wire_name(cmd)) {
                None => {},
                Some(v) => {
                    lemma_v2_selection_names(cmd, spec_split(v, ' '));
                    assert(("include-tag"@)[0] == 'i');
                    assert(("ref-in-want"@)[0] == 'r');
                    assert(("no-progress"@)[0] == 'n');
                    assert(("sideband-all"@)[0] == 's');
                    assert(("filter"@)[0] == 'f');
                    assert(("symref"@)[0] == 's');
                    assert forall|j: int|
                        0 <= j < v2_fetch_candidates().len() implies v2_fetch_candidates()[j]
                        != "include-tag"@ && v2_fetch_candidates()[j] != "no-progress"@
                        && v2_fetch_candidates()[j] != "symref"@ by {}
                },
            }
        },
    }
}

/// True iff the feature list holds a feature of this name.
fn features_contain(features: &Vec<Feature>, name: &str) -> (r: bool)
    ensures
        r == feature_named(feature_views(features@), name@),
{
    let n = features.len();
    let mut i: usize = 0;
    while i < n
        invariant
            i <= n,
            n == features@.len(),
            forall|j: int| 0 <= j < i ==> feature_views(features@)[j].name != name@,
        decreases n - i,
    {
        if str_eq(features[i].name.as_str(), name) {
            assert(feature_views(features@)[i as int].name == name@);
            return true;
        }
        i = i + 1;
    }
    false
}

} // verus!
