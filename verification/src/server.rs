//! The logic of the server dashboard (`eink-server`): its configuration, the optional
//! service widgets and their rotation, and how the text on the dashboard is made
//! from what the system, Nextcloud and Docker report.
use vstd::prelude::*;

use crate::display::{chunk_count, loads_then_refreshes, views, Display, Mode};
use crate::protocol::ScsiCommand;
use crate::raster::rotate180;
use crate::text::{
    chars_eq, chars_of, lowercase, push_chars, push_decimal, push_joined, push_str,
    string_from_chars, to_lowercase, texts_view, decimal, join, lines, split_lines, split_once,
    split_once_exec, trim_slashes, trim_slashes_exec, words, split_words, slice_chars, trim,
    trim_chars, starts_with, contains, starts_with_exec, contains_exec, strip_prefix, uppercase,
    to_uppercase, lossy_utf8, utf8_lossy, is_ascii_text, ascii_lowercase, ascii_uppercase,
};

verus! {

/// Colour theme of the dashboard.
#[derive(PartialEq, Eq, Structural, Clone, Copy, Debug)]
pub enum Theme {
    /// Dark background, bright text (the default).
    Dark,
    /// Light background, dark text.
    Light,
}

/// The dashboard's settings, as read from `server.toml`; every key is optional.
#[derive(Clone, Debug)]
pub struct Config {
    pub flip: Option<bool>,
    pub theme: Option<Theme>,
    pub nextcloud_url: Option<String>,
    pub nextcloud_user: Option<String>,
    pub nextcloud_password: Option<String>,
    pub nextcloud_token: Option<String>,
    pub network_interface: Option<String>,
    pub enabled_widgets: Option<Vec<String>>,
    pub nextcloud_container: Option<String>,
    pub couchdb_url: Option<String>,
    pub couchdb_user: Option<String>,
    pub couchdb_password: Option<String>,
    pub couchdb_databases: Option<Vec<String>>,
    pub firefly_url: Option<String>,
    pub firefly_token: Option<String>,
}

/// Credentials as the environment holds them (`NEXTCLOUD_USER`, `NEXTCLOUD_PASSWORD`,
/// `NEXTCLOUD_TOKEN`, `COUCHDB_USER`, `COUCHDB_PASSWORD`, `FIREFLY_TOKEN`): `Some` for
/// each variable that is set.
#[derive(Clone, Debug)]
pub struct EnvSecrets {
    pub nextcloud_user: Option<String>,
    pub nextcloud_password: Option<String>,
    pub nextcloud_token: Option<String>,
    pub couchdb_user: Option<String>,
    pub couchdb_password: Option<String>,
    pub firefly_token: Option<String>,
}

/// `current`, or else `fallback`.
pub open spec fn or_else(current: Option<String>, fallback: Option<String>) -> Option<String> {
    if current is Some {
        current
    } else {
        fallback
    }
}

fn fill(field: &mut Option<String>, value: Option<String>)
    ensures
        *final(field) == or_else(*old(field), value),
{
    if field.is_none() {
        *field = value;
    }
}

impl Config {
    /// The default settings: nothing set.
    pub fn empty() -> (c: Config)
        ensures
            c.flip is None,
            c.theme is None,
            c.nextcloud_url is None,
            c.nextcloud_user is None,
            c.nextcloud_password is None,
            c.nextcloud_token is None,
            c.network_interface is None,
            c.enabled_widgets is None,
            c.nextcloud_container is None,
            c.couchdb_url is None,
            c.couchdb_user is None,
            c.couchdb_password is None,
            c.couchdb_databases is None,
            c.firefly_url is None,
            c.firefly_token is None,
    {
        Config {
            flip: None,
            theme: None,
            nextcloud_url: None,
            nextcloud_user: None,
            nextcloud_password: None,
            nextcloud_token: None,
            network_interface: None,
            enabled_widgets: None,
            nextcloud_container: None,
            couchdb_url: None,
            couchdb_user: None,
            couchdb_password: None,
            couchdb_databases: None,
            firefly_url: None,
            firefly_token: None,
        }
    }

    /// Fills each credential that the configuration file left unset from the
    /// environment; what the file set wins, and nothing else changes.
    pub fn load_secrets_from_env(&mut self, env: EnvSecrets)
        ensures
            final(self).nextcloud_user == or_else(old(self).nextcloud_user, env.nextcloud_user),
            final(self).nextcloud_password == or_else(
                old(self).nextcloud_password,
                env.nextcloud_password,
            ),
            final(self).nextcloud_token == or_else(old(self).nextcloud_token, env.nextcloud_token),
            final(self).couchdb_user == or_else(old(self).couchdb_user, env.couchdb_user),
            final(self).couchdb_password == or_else(
                old(self).couchdb_password,
                env.couchdb_password,
            ),
            final(self).firefly_token == or_else(old(self).firefly_token, env.firefly_token),
            final(self).flip == old(self).flip,
            final(self).theme == old(self).theme,
            final(self).nextcloud_url == old(self).nextcloud_url,
            final(self).network_interface == old(self).network_interface,
            final(self).enabled_widgets == old(self).enabled_widgets,
            final(self).nextcloud_container == old(self).nextcloud_container,
            final(self).couchdb_url == old(self).couchdb_url,
            final(self).couchdb_databases == old(self).couchdb_databases,
            final(self).firefly_url == old(self).firefly_url,
    {
        fill(&mut self.nextcloud_user, env.nextcloud_user);
        fill(&mut self.nextcloud_password, env.nextcloud_password);
        fill(&mut self.nextcloud_token, env.nextcloud_token);
        fill(&mut self.couchdb_user, env.couchdb_user);
        fill(&mut self.couchdb_password, env.couchdb_password);
        fill(&mut self.firefly_token, env.firefly_token);
    }

    /// Whether the picture is turned by 180 degrees (unset: no).
    pub fn is_flipped(&self) -> (b: bool)
        ensures
            b == (self.flip == Some(true)),
    {
        match self.flip {
            Some(f) => f,
            None => false,
        }
    }

    /// Whether the dark theme is chosen (unset: yes).
    pub fn is_dark(&self) -> (b: bool)
        ensures
            b == (self.theme != Some(Theme::Light)),
    {
        match self.theme {
            Some(Theme::Light) => false,
            _ => true,
        }
    }
}

/// An optional service widget of the lower-right panel.
#[derive(Clone, Copy, PartialEq, Eq, Structural, Debug)]
pub enum WidgetKind {
    Docker,
    Obsidian,
    Firefly,
}

/// The widget that a lowercase name names.
pub open spec fn widget_named(lower: Seq<char>) -> Option<WidgetKind> {
    if lower == "docker"@ {
        Some(WidgetKind::Docker)
    } else if lower == "obsidian"@ {
        Some(WidgetKind::Obsidian)
    } else if lower == "firefly"@ {
        Some(WidgetKind::Firefly)
    } else {
        None
    }
}

/// The caption of a widget.
pub open spec fn widget_label(kind: WidgetKind) -> Seq<char> {
    match kind {
        WidgetKind::Docker => "DOCKER"@,
        WidgetKind::Obsidian => "OBSIDIAN"@,
        WidgetKind::Firefly => "FIREFLY"@,
    }
}

impl WidgetKind {
    /// The widget that a name already in lower case names.
    pub fn from_lowercase(lower: &str) -> (r: Option<WidgetKind>)
        ensures
            r == widget_named(lower@),
    {
        let chars = chars_of(lower);
        if chars_eq(&chars, &chars_of("docker")) {
            Some(WidgetKind::Docker)
        } else if chars_eq(&chars, &chars_of("obsidian")) {
            Some(WidgetKind::Obsidian)
        } else if chars_eq(&chars, &chars_of("firefly")) {
            Some(WidgetKind::Firefly)
        } else {
            None
        }
    }

    /// The widget a configured name stands for, in any case (`"Docker"`, `"DOCKER"`).
    pub fn parse(name: &str) -> (r: Option<WidgetKind>)
        ensures
            r == widget_named(lowercase(name@)),
            is_ascii_text(name@) ==> r == widget_named(ascii_lowercase(name@)),
            forall|k: WidgetKind| name@ == widget_label(k) ==> r == Some(k),
    {
        let lower = to_lowercase(name);
        proof {
            lemma_labels_parse();
        }
        WidgetKind::from_lowercase(lower.as_str())
    }

    /// The widget's caption.
    pub fn label(&self) -> (s: &'static str)
        ensures
            s@ == widget_label(*self),
    {
        match self {
            WidgetKind::Docker => "DOCKER",
            WidgetKind::Obsidian => "OBSIDIAN",
            WidgetKind::Firefly => "FIREFLY",
        }
    }
}

/// A widget's caption is ASCII, and made small it names that widget.
pub proof fn lemma_labels_parse()
    ensures
        forall|k: WidgetKind|
            #![trigger widget_label(k)]
            is_ascii_text(widget_label(k)) && widget_named(ascii_lowercase(widget_label(k)))
                == Some(k),
{
    reveal_strlit("DOCKER");
    reveal_strlit("OBSIDIAN");
    reveal_strlit("FIREFLY");
    reveal_strlit("docker");
    reveal_strlit("obsidian");
    reveal_strlit("firefly");
    assert(ascii_lowercase("DOCKER"@) =~= "docker"@);
    assert(ascii_lowercase("OBSIDIAN"@) =~= "obsidian"@);
    assert(ascii_lowercase("FIREFLY"@) =~= "firefly"@);
}

/// The characters of each string.
pub open spec fn strings_view(v: Seq<String>) -> Seq<Seq<char>> {
    v.map_values(|s: String| s@)
}

/// The widgets that `names` name, in order, skipping names that name none.
pub open spec fn widget_kinds(names: Seq<Seq<char>>) -> Seq<WidgetKind>
    decreases names.len(),
{
    if names.len() == 0 {
        seq![]
    } else {
        let rest = widget_kinds(names.drop_last());
        match widget_named(lowercase(names.last())) {
            Some(k) => rest.push(k),
            None => rest,
        }
    }
}

/// The widgets that the configuration enables, in the order it lists them.
pub open spec fn enabled_kinds(config: Config) -> Seq<WidgetKind> {
    match config.enabled_widgets {
        Some(names) => widget_kinds(strings_view(names@)),
        None => seq![],
    }
}

/// The widgets that the configuration enables, in the order it lists them; names that
/// name no widget are skipped.
pub fn enabled_widget_kinds(config: &Config) -> (r: Vec<WidgetKind>)
    ensures
        r@ == enabled_kinds(*config),
{
    let mut out: Vec<WidgetKind> = Vec::new();
    match &config.enabled_widgets {
        None => out,
        Some(names) => {
            let mut i: usize = 0;
            while i < names.len()
                invariant
                    i <= names@.len(),
                    out@ == widget_kinds(strings_view(names@.take(i as int))),
                decreases names@.len() - i,
            {
                let parsed = WidgetKind::parse(names[i].as_str());
                if let Some(k) = parsed {
                    out.push(k);
                }
                i = i + 1;
                assert(strings_view(names@.take(i as int)).drop_last() =~= strings_view(
                    names@.take(i - 1),
                ));
            }
            assert(names@.take(names@.len() as int) =~= names@);
            out
        },
    }
}

} // verus!

verus! {

/// Containers as `docker ps -a` lists them: how many run, and the names of the others.
#[derive(Clone, Debug)]
pub struct DockerStatus {
    pub running: u32,
    pub stopped: Vec<String>,
}

/// The count of running containers and the names of the others, in order, that the
/// lines `ls` of `docker ps -a --format '{{.Names}}\t{{.State}}'` report: a line whose
/// state (the text after the first tab) is `running` counts; any other line with a
/// non-empty name (the text before the first tab) names a stopped container.
pub open spec fn docker_tally(ls: Seq<Seq<char>>) -> (nat, Seq<Seq<char>>)
    decreases ls.len(),
{
    if ls.len() == 0 {
        (0, seq![])
    } else {
        let (running, stopped) = docker_tally(ls.drop_last());
        let (name, state) = split_once(ls.last(), '\t');
        if state == "running"@ {
            (running + 1, stopped)
        } else if name.len() > 0 {
            (running, stopped.push(name))
        } else {
            (running, stopped)
        }
    }
}

proof fn lemma_docker_tally_bound(ls: Seq<Seq<char>>)
    ensures
        docker_tally(ls).0 <= ls.len(),
    decreases ls.len(),
{
    if ls.len() > 0 {
        lemma_docker_tally_bound(ls.drop_last());
    }
}

/// What `docker ps -a --format '{{.Names}}\t{{.State}}'` printed, read line by line;
/// `None` when more containers run than a `u32` counts.
pub fn parse_docker_ps(output: &str) -> (r: Option<DockerStatus>)
    ensures
        r is Some <==> docker_tally(lines(output@)).0 <= u32::MAX,
        r matches Some(st) ==> st.running == docker_tally(lines(output@)).0 && strings_view(
            st.stopped@,
        ) == docker_tally(lines(output@)).1,
{
    let text = chars_of(output);
    let ls = split_lines(&text);
    let ghost lv = texts_view(ls@);
    let mut running: u64 = 0;
    let mut stopped: Vec<String> = Vec::new();
    let running_word = chars_of("running");
    let mut i: usize = 0;
    while i < ls.len()
        invariant
            i <= ls@.len(),
            lv == texts_view(ls@),
            lv == lines(output@),
            running_word@ == "running"@,
            running == docker_tally(lv.take(i as int)).0,
            strings_view(stopped@) == docker_tally(lv.take(i as int)).1,
        decreases ls@.len() - i,
    {
        proof {
            assert(lv.take(i + 1).drop_last() =~= lv.take(i as int));
            lemma_docker_tally_bound(lv.take(i as int));
        }
        let (name, state) = split_once_exec(&ls[i], '\t');
        if chars_eq(&state, &running_word) {
            running = running + 1;
        } else if name.len() > 0 {
            let ghost before = strings_view(stopped@);
            stopped.push(string_from_chars(&name));
            assert(strings_view(stopped@) =~= before.push(name@));
        }
        i = i + 1;
    }
    assert(lv.take(lv.len() as int) =~= lv);
    if running > u32::MAX as u64 {
        None
    } else {
        Some(DockerStatus { running: running as u32, stopped })
    }
}

/// What `docker ps -a --format '{{.Names}}\t{{.State}}'` wrote to its standard
/// output, decoded as UTF-8 with invalid sequences replaced, read line by line.
pub fn docker_status_from_output(stdout: &[u8]) -> (r: Option<DockerStatus>)
    ensures
        r is Some <==> docker_tally(lines(lossy_utf8(stdout@))).0 <= u32::MAX,
        r matches Some(st) ==> st.running == docker_tally(lines(lossy_utf8(stdout@))).0
            && strings_view(st.stopped@) == docker_tally(lines(lossy_utf8(stdout@))).1,
{
    let text = utf8_lossy(stdout);
    parse_docker_ps(text.as_str())
}

/// The line that lists the stopped containers: their count, then up to three names,
/// then how many more there are.
pub open spec fn stopped_text(names: Seq<Seq<char>>) -> Seq<char> {
    if names.len() == 0 {
        "0 STOPPED"@
    } else if names.len() <= 3 {
        decimal(names.len()) + " STOPPED: "@ + join(names, ", "@)
    } else {
        decimal(names.len()) + " STOPPED: "@ + join(names.take(3), ", "@) + ", +"@ + decimal(
            (names.len() - 3) as nat,
        ) + " MORE"@
    }
}

/// The line that lists the stopped containers.
pub fn format_stopped(names: &Vec<String>) -> (s: String)
    ensures
        s@ == stopped_text(strings_view(names@)),
{
    let ghost nv = strings_view(names@);
    let mut out: Vec<char> = Vec::new();
    if names.len() == 0 {
        push_str(&mut out, "0 STOPPED");
        return string_from_chars(&out);
    }
    let shown: usize = if names.len() <= 3 {
        names.len()
    } else {
        3
    };
    let mut parts: Vec<Vec<char>> = Vec::new();
    let mut i: usize = 0;
    while i < shown
        invariant
            shown <= names@.len(),
            i <= shown,
            texts_view(parts@) == nv.take(i as int),
            nv == strings_view(names@),
        decreases shown - i,
    {
        let ghost before = texts_view(parts@);
        let c = chars_of(names[i].as_str());
        assert(c@ == nv[i as int]);
        parts.push(c);
        i = i + 1;
        assert(texts_view(parts@) =~= before.push(c@));
        assert(texts_view(parts@) =~= nv.take(i as int));
    }
    push_decimal(&mut out, names.len() as u64);
    push_str(&mut out, " STOPPED: ");
    let sep = chars_of(", ");
    push_joined(&mut out, &parts, &sep);
    if names.len() > 3 {
        push_str(&mut out, ", +");
        push_decimal(&mut out, (names.len() - 3) as u64);
        push_str(&mut out, " MORE");
    } else {
        assert(nv.take(nv.len() as int) =~= nv);
    }
    string_from_chars(&out)
}

} // verus!

verus! {

/// One CouchDB database as `GET /<db>` reports it (each number 0 where absent).
#[derive(Clone, Copy, Debug)]
pub struct DbStats {
    /// `sizes.file`: bytes on disk.
    pub file_size: u64,
    /// `sizes.active`: bytes of live data.
    pub active_size: u64,
    pub doc_count: u64,
    pub doc_del_count: u64,
    /// `compact_running`.
    pub compacting: bool,
}

/// The Obsidian vault databases taken together.
#[derive(Clone, Copy, Debug)]
pub struct ObsidianStatus {
    pub total_size: u64,
    pub active_size: u64,
    pub doc_count: u64,
    pub doc_del_count: u64,
    pub compacting: bool,
}

impl ObsidianStatus {
    /// Nothing counted yet.
    pub fn zero() -> (s: ObsidianStatus)
        ensures
            s.total_size == 0 && s.active_size == 0 && s.doc_count == 0 && s.doc_del_count == 0,
            !s.compacting,
    {
        ObsidianStatus {
            total_size: 0,
            active_size: 0,
            doc_count: 0,
            doc_del_count: 0,
            compacting: false,
        }
    }

    /// Adds one more database: sizes and counts add up, and the vault is compacting
    /// while any of its databases is.
    pub fn add_database(&mut self, db: &DbStats)
        requires
            old(self).total_size + db.file_size <= u64::MAX,
            old(self).active_size + db.active_size <= u64::MAX,
            old(self).doc_count + db.doc_count <= u64::MAX,
            old(self).doc_del_count + db.doc_del_count <= u64::MAX,
        ensures
            final(self).total_size == old(self).total_size + db.file_size,
            final(self).active_size == old(self).active_size + db.active_size,
            final(self).doc_count == old(self).doc_count + db.doc_count,
            final(self).doc_del_count == old(self).doc_del_count + db.doc_del_count,
            final(self).compacting == (old(self).compacting || db.compacting),
    {
        self.total_size = self.total_size + db.file_size;
        self.active_size = self.active_size + db.active_size;
        self.doc_count = self.doc_count + db.doc_count;
        self.doc_del_count = self.doc_del_count + db.doc_del_count;
        self.compacting = self.compacting || db.compacting;
    }
}

/// The vault's combined on-disk size beyond which compaction is recommended: 2 GiB.
pub const COUCHDB_SIZE_WARN_BYTES: u64 = 2147483648;

/// The combined size below which the bloat ratio says nothing yet: 50 MiB.
pub const MIN_SIZE_FOR_RATIO_CHECK: u64 = 52428800;

impl ObsidianStatus {
    /// Whether the databases together take more than `COUCHDB_SIZE_WARN_BYTES` on disk,
    /// which alone calls for compaction.
    pub fn over_size_limit(&self) -> (b: bool)
        ensures
            b == (self.total_size > COUCHDB_SIZE_WARN_BYTES),
    {
        self.total_size > COUCHDB_SIZE_WARN_BYTES
    }

    /// Whether the databases are large enough (more than `MIN_SIZE_FOR_RATIO_CHECK`) for
    /// their bloat ratio to count.
    pub fn ratio_check_applies(&self) -> (b: bool)
        ensures
            b == (self.total_size > MIN_SIZE_FOR_RATIO_CHECK),
    {
        self.total_size > MIN_SIZE_FOR_RATIO_CHECK
    }
}

/// The on-disk sizes of `dbs` added up.
pub open spec fn sum_file(dbs: Seq<DbStats>) -> int
    decreases dbs.len(),
{
    if dbs.len() == 0 {
        0
    } else {
        sum_file(dbs.drop_last()) + dbs.last().file_size
    }
}

/// The live-data sizes of `dbs` added up.
pub open spec fn sum_active(dbs: Seq<DbStats>) -> int
    decreases dbs.len(),
{
    if dbs.len() == 0 {
        0
    } else {
        sum_active(dbs.drop_last()) + dbs.last().active_size
    }
}

/// The document counts of `dbs` added up.
pub open spec fn sum_docs(dbs: Seq<DbStats>) -> int
    decreases dbs.len(),
{
    if dbs.len() == 0 {
        0
    } else {
        sum_docs(dbs.drop_last()) + dbs.last().doc_count
    }
}

/// The deleted-document counts of `dbs` added up.
pub open spec fn sum_deleted(dbs: Seq<DbStats>) -> int
    decreases dbs.len(),
{
    if dbs.len() == 0 {
        0
    } else {
        sum_deleted(dbs.drop_last()) + dbs.last().doc_del_count
    }
}

/// Whether any of `dbs` is being compacted.
pub open spec fn any_compacting(dbs: Seq<DbStats>) -> bool {
    exists|i: int| 0 <= i < dbs.len() && (#[trigger] dbs[i]).compacting
}

/// Every total of `dbs` fits in a `u64`.
pub open spec fn sums_fit(dbs: Seq<DbStats>) -> bool {
    &&& sum_file(dbs) <= u64::MAX
    &&& sum_active(dbs) <= u64::MAX
    &&& sum_docs(dbs) <= u64::MAX
    &&& sum_deleted(dbs) <= u64::MAX
}

/// The totals of a prefix are no larger than those of the whole.
proof fn lemma_sums_grow(dbs: Seq<DbStats>, i: int)
    requires
        0 <= i <= dbs.len(),
    ensures
        0 <= sum_file(dbs.take(i)) <= sum_file(dbs),
        0 <= sum_active(dbs.take(i)) <= sum_active(dbs),
        0 <= sum_docs(dbs.take(i)) <= sum_docs(dbs),
        0 <= sum_deleted(dbs.take(i)) <= sum_deleted(dbs),
    decreases dbs.len(),
{
    if i == dbs.len() {
        assert(dbs.take(i) =~= dbs);
        if dbs.len() > 0 {
            lemma_sums_grow(dbs.drop_last(), i - 1);
            assert(dbs.drop_last().take(i - 1) =~= dbs.drop_last());
        }
    } else {
        lemma_sums_grow(dbs.drop_last(), i);
        assert(dbs.drop_last().take(i) =~= dbs.take(i));
    }
}

/// The vault databases taken together: sizes and counts added up, compacting while any
/// of them is; `None` when a total does not fit in a `u64`.
pub fn sum_databases(dbs: &Vec<DbStats>) -> (r: Option<ObsidianStatus>)
    ensures
        r is Some <==> sums_fit(dbs@),
        r matches Some(s) ==> {
            &&& s.total_size == sum_file(dbs@)
            &&& s.active_size == sum_active(dbs@)
            &&& s.doc_count == sum_docs(dbs@)
            &&& s.doc_del_count == sum_deleted(dbs@)
            &&& s.compacting == any_compacting(dbs@)
        },
{
    let mut status = ObsidianStatus::zero();
    let mut i: usize = 0;
    while i < dbs.len()
        invariant
            i <= dbs@.len(),
            status.total_size == sum_file(dbs@.take(i as int)),
            status.active_size == sum_active(dbs@.take(i as int)),
            status.doc_count == sum_docs(dbs@.take(i as int)),
            status.doc_del_count == sum_deleted(dbs@.take(i as int)),
            status.compacting == any_compacting(dbs@.take(i as int)),
        decreases dbs@.len() - i,
    {
        let db = &dbs[i];
        let ghost next = dbs@.take(i + 1);
        assert(next.drop_last() =~= dbs@.take(i as int));
        proof {
            lemma_sums_grow(dbs@, i + 1);
        }
        if status.total_size.checked_add(db.file_size).is_none()
            || status.active_size.checked_add(db.active_size).is_none()
            || status.doc_count.checked_add(db.doc_count).is_none()
            || status.doc_del_count.checked_add(db.doc_del_count).is_none() {
            return None;
        }
        status.add_database(db);
        assert(status.compacting == any_compacting(next)) by {
            if db.compacting {
                assert(next[i as int] == *db);
            }
            if any_compacting(dbs@.take(i as int)) {
                let j = choose|j: int| 0 <= j < i && (#[trigger] dbs@.take(i as int)[j]).compacting;
                assert(next[j] == dbs@.take(i as int)[j]);
            }
        }
        i = i + 1;
    }
    assert(dbs@.take(i as int) =~= dbs@);
    Some(status)
}

/// Grey levels of the dashboard's colours.
#[derive(Clone, Copy, Debug, PartialEq, Eq, Structural)]
pub struct Palette {
    pub bg: u8,
    pub bright: u8,
    pub mid: u8,
    pub dim: u8,
}

impl Palette {
    /// The dark palette for the dark theme, the light one otherwise.
    pub fn from_config(config: &Config) -> (p: Palette)
        ensures
            config.theme != Some(Theme::Light) ==> p == (Palette {
                bg: 10,
                bright: 245,
                mid: 170,
                dim: 90,
            }),
            config.theme == Some(Theme::Light) ==> p == (Palette {
                bg: 245,
                bright: 10,
                mid: 80,
                dim: 160,
            }),
    {
        if config.is_dark() {
            Palette { bg: 10, bright: 245, mid: 170, dim: 90 }
        } else {
            Palette { bg: 245, bright: 10, mid: 80, dim: 160 }
        }
    }
}

/// Uptime as days, hours and minutes, leaving out leading zero units.
pub open spec fn uptime_text(secs: nat) -> Seq<char> {
    let days = secs / 86400;
    let hours = (secs % 86400) / 3600;
    let mins = (secs % 3600) / 60;
    if days > 0 {
        decimal(days) + "D "@ + decimal(hours) + "H "@ + decimal(mins) + "M"@
    } else if hours > 0 {
        decimal(hours) + "H "@ + decimal(mins) + "M"@
    } else {
        decimal(mins) + "M"@
    }
}

/// Uptime as days, hours and minutes (`"2D 4H 13M"`, `"4H 13M"`, `"13M"`).
pub fn format_uptime(secs: u64) -> (s: String)
    ensures
        s@ == uptime_text(secs as nat),
{
    let days = secs / 86400;
    let hours = (secs % 86400) / 3600;
    let mins = (secs % 3600) / 60;
    let mut out: Vec<char> = Vec::new();
    if days > 0 {
        push_decimal(&mut out, days);
        push_str(&mut out, "D ");
        push_decimal(&mut out, hours);
        push_str(&mut out, "H ");
        push_decimal(&mut out, mins);
        push_str(&mut out, "M");
    } else if hours > 0 {
        push_decimal(&mut out, hours);
        push_str(&mut out, "H ");
        push_decimal(&mut out, mins);
        push_str(&mut out, "M");
    } else {
        push_decimal(&mut out, mins);
        push_str(&mut out, "M");
    }
    string_from_chars(&out)
}

/// The configured Nextcloud URL (`https://localhost` when unset) without trailing `/`.
pub open spec fn nc_base(config: Config) -> Seq<char> {
    match config.nextcloud_url {
        Some(url) => trim_slashes(url@),
        None => trim_slashes("https://localhost"@),
    }
}

/// The configured Nextcloud URL, `https://localhost` when unset, without trailing `/`.
pub fn nc_base_url(config: &Config) -> (s: String)
    ensures
        s@ == nc_base(*config),
{
    let url = match &config.nextcloud_url {
        Some(u) => chars_of(u.as_str()),
        None => chars_of("https://localhost"),
    };
    let t = trim_slashes_exec(&url);
    string_from_chars(&t)
}

/// The user name and secret for HTTP basic authentication against Nextcloud: the user
/// with the app token when one is set, else with the password; none without a user
/// or without either secret.
pub open spec fn nc_credentials(config: Config) -> Option<(Seq<char>, Seq<char>)> {
    match config.nextcloud_user {
        None => None,
        Some(user) => match config.nextcloud_token {
            Some(token) => Some((user@, token@)),
            None => match config.nextcloud_password {
                Some(password) => Some((user@, password@)),
                None => None,
            },
        },
    }
}

/// The user name and secret for HTTP basic authentication against Nextcloud.
pub fn nc_basic_auth(config: &Config) -> (r: Option<(String, String)>)
    ensures
        r is Some <==> nc_credentials(*config) is Some,
        r matches Some((u, s)) ==> (u@, s@) == nc_credentials(*config)->0,
{
    match &config.nextcloud_user {
        None => None,
        Some(user) => match &config.nextcloud_token {
            Some(token) => Some((user.clone(), token.clone())),
            None => match &config.nextcloud_password {
                Some(password) => Some((user.clone(), password.clone())),
                None => None,
            },
        },
    }
}

/// The URL of Nextcloud's status page.
pub fn nc_status_url(config: &Config) -> (s: String)
    ensures
        s@ == nc_base(*config) + "/status.php"@,
{
    let mut out = chars_of(nc_base_url(config).as_str());
    push_str(&mut out, "/status.php");
    string_from_chars(&out)
}

/// How the serverinfo API is asked.
#[derive(Clone, Debug)]
pub enum ServerInfoAuth {
    /// The serverinfo token, sent in the `NC-Token` header (and nothing else).
    Token(String),
    /// HTTP basic authentication.
    Basic(String, String),
}

/// The serverinfo request: its URL and authentication.
#[derive(Clone, Debug)]
pub struct ServerInfoRequest {
    pub url: String,
    pub auth: ServerInfoAuth,
}

/// Whether the serverinfo API is asked at all: a Nextcloud URL is set, and either a
/// token or a user with a password or token.
pub open spec fn serverinfo_wanted(config: Config) -> bool {
    &&& config.nextcloud_url is Some
    &&& (config.nextcloud_token is Some || (config.nextcloud_user is Some
        && config.nextcloud_password is Some))
}

/// The serverinfo request, when the configuration allows one: the token goes in the
/// `NC-Token` header when set, else the user and password go as basic authentication.
pub fn serverinfo_request(config: &Config) -> (r: Option<ServerInfoRequest>)
    ensures
        r is Some <==> serverinfo_wanted(*config),
        r matches Some(req) ==> {
            &&& req.url@ == nc_base(*config) + "/ocs/v2.php/apps/serverinfo/api/v1/info?format=json"@
            &&& match config.nextcloud_token {
                Some(token) => req.auth matches ServerInfoAuth::Token(t) && t@ == token@,
                None => req.auth matches ServerInfoAuth::Basic(u, p) && u@
                    == config.nextcloud_user->0@ && p@ == config.nextcloud_password->0@,
            }
        },
{
    if config.nextcloud_url.is_none() {
        return None;
    }
    let auth = match &config.nextcloud_token {
        Some(token) => ServerInfoAuth::Token(token.clone()),
        None => match (&config.nextcloud_user, &config.nextcloud_password) {
            (Some(user), Some(password)) => ServerInfoAuth::Basic(user.clone(), password.clone()),
            _ => return None,
        },
    };
    let mut url = chars_of(nc_base_url(config).as_str());
    push_str(&mut url, "/ocs/v2.php/apps/serverinfo/api/v1/info?format=json");
    Some(ServerInfoRequest { url: string_from_chars(&url), auth })
}

} // verus!

verus! {

/// What Nextcloud's serverinfo API reports, as the dashboard shows it.
#[derive(Clone, Debug)]
pub struct ServerInfo {
    pub active_5m: u64,
    pub active_1h: u64,
    pub active_24h: u64,
    pub app_updates: u64,
    pub core_update: bool,
    pub php_version: String,
    pub db_type: String,
    pub db_version: String,
    pub num_users: u64,
    pub num_disabled_users: u64,
    pub num_files: u64,
    pub shares_user: u64,
    pub shares_group: u64,
    pub shares_link: u64,
    pub free_space: u64,
}

/// The values found at the serverinfo reply's paths (`None` where the path is absent
/// or holds another kind of value).
#[derive(Clone, Debug)]
pub struct RawServerInfo {
    /// `activeUsers.last5minutes`
    pub active_5m: Option<u64>,
    /// `activeUsers.last1hour`
    pub active_1h: Option<u64>,
    /// `activeUsers.last24hours`
    pub active_24h: Option<u64>,
    /// `nextcloud.system.apps.num_updates_available`
    pub app_updates: Option<u64>,
    /// `nextcloud.system.update.available` when it is a boolean
    pub core_update_flag: Option<bool>,
    /// `nextcloud.system.update.available` when it is a string
    pub core_update_text: Option<String>,
    /// `server.php.version`
    pub php_version: Option<String>,
    /// `server.database.type`
    pub db_type: Option<String>,
    /// `server.database.version`
    pub db_version: Option<String>,
    /// `nextcloud.storage.num_users`
    pub num_users: Option<u64>,
    /// `nextcloud.storage.num_disabled_users`
    pub num_disabled_users: Option<u64>,
    /// `nextcloud.storage.num_files`
    pub num_files: Option<u64>,
    /// `nextcloud.shares.num_shares_user`
    pub shares_user: Option<u64>,
    /// `nextcloud.shares.num_shares_groups`
    pub shares_group: Option<u64>,
    /// `nextcloud.shares.num_shares_link`
    pub shares_link: Option<u64>,
    /// `nextcloud.system.freespace`
    pub free_space: Option<u64>,
}

/// The first `n` elements of `s` (all of them if it has fewer).
pub open spec fn at_most<A>(s: Seq<A>, n: nat) -> Seq<A> {
    if s.len() <= n {
        s
    } else {
        s.take(n as int)
    }
}

/// The number, or 0.
pub open spec fn or_zero(v: Option<u64>) -> u64 {
    match v {
        Some(n) => n,
        None => 0,
    }
}

/// The text, or nothing.
pub open spec fn or_empty(v: Option<String>) -> Seq<char> {
    match v {
        Some(s) => s@,
        None => Seq::empty(),
    }
}

fn unwrap_or_zero(v: Option<u64>) -> (n: u64)
    ensures
        n == or_zero(v),
{
    match v {
        Some(n) => n,
        None => 0,
    }
}

fn unwrap_or_empty(v: &Option<String>) -> (s: Vec<char>)
    ensures
        s@ == or_empty(*v),
{
    match v {
        Some(s) => chars_of(s.as_str()),
        None => Vec::new(),
    }
}

impl ServerInfo {
    /// Nothing known: what the dashboard shows when the API is not asked or fails.
    pub fn empty() -> (s: ServerInfo)
        ensures
            s.active_5m == 0 && s.active_1h == 0 && s.active_24h == 0,
            s.app_updates == 0 && !s.core_update,
            s.php_version@ == Seq::<char>::empty() && s.db_type@ == Seq::<char>::empty()
                && s.db_version@ == Seq::<char>::empty(),
            s.num_users == 0 && s.num_disabled_users == 0 && s.num_files == 0,
            s.shares_user == 0 && s.shares_group == 0 && s.shares_link == 0 && s.free_space == 0,
    {
        let empty: Vec<char> = Vec::new();
        ServerInfo {
            active_5m: 0,
            active_1h: 0,
            active_24h: 0,
            app_updates: 0,
            core_update: false,
            php_version: string_from_chars(&empty),
            db_type: string_from_chars(&empty),
            db_version: string_from_chars(&empty),
            num_users: 0,
            num_disabled_users: 0,
            num_files: 0,
            shares_user: 0,
            shares_group: 0,
            shares_link: 0,
            free_space: 0,
        }
    }

    /// The information a serverinfo reply gives: absent numbers count 0, absent texts
    /// are empty, a core update is pending when the reply says `true` or any non-empty
    /// text, and the database version keeps only its first two words.
    pub fn from_raw(raw: &RawServerInfo) -> (s: ServerInfo)
        ensures
            s.active_5m == or_zero(raw.active_5m),
            s.active_1h == or_zero(raw.active_1h),
            s.active_24h == or_zero(raw.active_24h),
            s.app_updates == or_zero(raw.app_updates),
            s.core_update == (raw.core_update_flag == Some(true) || or_empty(
                raw.core_update_text,
            ).len() > 0),
            s.php_version@ == or_empty(raw.php_version),
            s.db_type@ == or_empty(raw.db_type),
            s.db_version@ == join(at_most(words(or_empty(raw.db_version)), 2), " "@),
            s.num_users == or_zero(raw.num_users),
            s.num_disabled_users == or_zero(raw.num_disabled_users),
            s.num_files == or_zero(raw.num_files),
            s.shares_user == or_zero(raw.shares_user),
            s.shares_group == or_zero(raw.shares_group),
            s.shares_link == or_zero(raw.shares_link),
            s.free_space == or_zero(raw.free_space),
    {
        let flag = match raw.core_update_flag {
            Some(b) => b,
            None => false,
        };
        let text = unwrap_or_empty(&raw.core_update_text);
        let php = unwrap_or_empty(&raw.php_version);
        let db_type = unwrap_or_empty(&raw.db_type);
        let db_raw = unwrap_or_empty(&raw.db_version);
        let all_words = split_words(&db_raw);
        let mut first: Vec<Vec<char>> = Vec::new();
        let mut i: usize = 0;
        while i < all_words.len() && i < 2
            invariant
                i <= all_words@.len(),
                i <= 2,
                texts_view(first@) == texts_view(all_words@).take(i as int),
            decreases 2 - i,
        {
            let ghost before = texts_view(first@);
            let w = slice_chars(&all_words[i], 0, all_words[i].len());
            assert(w@ =~= texts_view(all_words@)[i as int]);
            first.push(w);
            assert(texts_view(first@) =~= before.push(w@));
            i = i + 1;
            assert(texts_view(first@) =~= texts_view(all_words@).take(i as int));
        }
        assert(texts_view(first@) =~= at_most(words(db_raw@), 2));
        let mut version: Vec<char> = Vec::new();
        push_joined(&mut version, &first, &chars_of(" "));
        ServerInfo {
            active_5m: unwrap_or_zero(raw.active_5m),
            active_1h: unwrap_or_zero(raw.active_1h),
            active_24h: unwrap_or_zero(raw.active_24h),
            app_updates: unwrap_or_zero(raw.app_updates),
            core_update: flag || text.len() > 0,
            php_version: string_from_chars(&php),
            db_type: string_from_chars(&db_type),
            db_version: string_from_chars(&version),
            num_users: unwrap_or_zero(raw.num_users),
            num_disabled_users: unwrap_or_zero(raw.num_disabled_users),
            num_files: unwrap_or_zero(raw.num_files),
            shares_user: unwrap_or_zero(raw.shares_user),
            shares_group: unwrap_or_zero(raw.shares_group),
            shares_link: unwrap_or_zero(raw.shares_link),
            free_space: unwrap_or_zero(raw.free_space),
        }
    }

    /// Whether a reply filled this in, as opposed to the empty information.
    pub fn has_detail(&self) -> (b: bool)
        ensures
            b == (self.php_version@.len() > 0 || self.num_users > 0 || self.num_files > 0),
    {
        !self.php_version.as_str().is_empty() || self.num_users > 0 || self.num_files > 0
    }
}

/// The count of app updates and whether a core update is available, from the lines
/// `ls` that `occ update:check` printed: a line (trimmed) that starts with `Nextcloud `
/// and says `is available` announces the core update; one that starts with
/// `Update for ` and says it announces one app update.
pub open spec fn update_tally(ls: Seq<Seq<char>>) -> (nat, bool)
    decreases ls.len(),
{
    if ls.len() == 0 {
        (0, false)
    } else {
        let (apps, core) = update_tally(ls.drop_last());
        let line = trim(ls.last());
        if starts_with(line, "Nextcloud "@) && contains(line, "is available"@) {
            (apps, true)
        } else if starts_with(line, "Update for "@) && contains(line, "is available"@) {
            (apps + 1, core)
        } else {
            (apps, core)
        }
    }
}

proof fn lemma_update_tally_bound(ls: Seq<Seq<char>>)
    ensures
        update_tally(ls).0 <= ls.len(),
    decreases ls.len(),
{
    if ls.len() > 0 {
        lemma_update_tally_bound(ls.drop_last());
    }
}

/// The count of app updates and whether a core update is available, from what
/// `occ update:check` printed.
pub fn parse_update_check(output: &str) -> (r: (u64, bool))
    ensures
        r.0 == update_tally(lines(output@)).0,
        r.1 == update_tally(lines(output@)).1,
{
    let text = chars_of(output);
    let ls = split_lines(&text);
    let ghost lv = texts_view(ls@);
    let nextcloud = chars_of("Nextcloud ");
    let update_for = chars_of("Update for ");
    let available = chars_of("is available");
    let mut apps: u64 = 0;
    let mut core = false;
    let mut i: usize = 0;
    while i < ls.len()
        invariant
            i <= ls@.len(),
            lv == texts_view(ls@),
            lv == lines(output@),
            nextcloud@ == "Nextcloud "@,
            update_for@ == "Update for "@,
            available@ == "is available"@,
            apps == update_tally(lv.take(i as int)).0,
            core == update_tally(lv.take(i as int)).1,
        decreases ls@.len() - i,
    {
        proof {
            assert(lv.take(i + 1).drop_last() =~= lv.take(i as int));
            lemma_update_tally_bound(lv.take(i as int));
        }
        let line = trim_chars(&ls[i]);
        if starts_with_exec(&line, &nextcloud) && contains_exec(&line, &available) {
            core = true;
        } else if starts_with_exec(&line, &update_for) && contains_exec(&line, &available) {
            apps = apps + 1;
        }
        i = i + 1;
    }
    assert(lv.take(lv.len() as int) =~= lv);
    (apps, core)
}

} // verus!

verus! {

/// The count of app updates and whether a core update is available, from what
/// `occ update:check` wrote to its standard output, decoded as UTF-8 with invalid
/// sequences replaced.
pub fn update_check_from_output(stdout: &[u8]) -> (r: (u64, bool))
    ensures
        r.0 == update_tally(lines(lossy_utf8(stdout@))).0,
        r.1 == update_tally(lines(lossy_utf8(stdout@))).1,
{
    let text = utf8_lossy(stdout);
    parse_update_check(text.as_str())
}

/// Whether `name` is a loopback or virtual interface (Docker bridges and veth pairs,
/// libvirt bridges, tunnels), whose traffic the graphs leave out unless asked for.
pub open spec fn is_virtual_interface(name: Seq<char>) -> bool {
    ||| starts_with(name, "lo"@)
    ||| starts_with(name, "docker"@)
    ||| starts_with(name, "veth"@)
    ||| starts_with(name, "br-"@)
    ||| starts_with(name, "virbr"@)
    ||| starts_with(name, "tun"@)
    ||| starts_with(name, "tap"@)
}

/// Whether the traffic of interface `name` counts: the configured interface alone
/// when one is set, else every interface that is not virtual.
pub open spec fn interface_counts(name: Seq<char>, wanted: Option<Seq<char>>) -> bool {
    match wanted {
        Some(w) => name == w,
        None => !is_virtual_interface(name),
    }
}

fn prefixed(name: &Vec<char>, prefix: &str) -> (b: bool)
    ensures
        b == starts_with(name@, prefix@),
{
    starts_with_exec(name, &chars_of(prefix))
}

/// Whether the traffic of interface `name` counts, given the configured interface.
pub fn include_interface(name: &str, wanted: Option<&str>) -> (b: bool)
    ensures
        b == interface_counts(
            name@,
            match wanted {
                Some(w) => Some(w@),
                None => None,
            },
        ),
{
    let n = chars_of(name);
    match wanted {
        Some(w) => chars_eq(&n, &chars_of(w)),
        None => !(prefixed(&n, "lo") || prefixed(&n, "docker") || prefixed(&n, "veth")
            || prefixed(&n, "br-") || prefixed(&n, "virbr") || prefixed(&n, "tun") || prefixed(
            &n,
            "tap",
        )),
    }
}

/// Bytes received and sent so far on one network interface.
#[derive(Clone, Debug)]
pub struct InterfaceTraffic {
    pub name: String,
    pub received: u64,
    pub transmitted: u64,
}

/// Bytes received and sent over the interfaces that count.
pub open spec fn traffic_totals(ifaces: Seq<InterfaceTraffic>, wanted: Option<Seq<char>>) -> (
    nat,
    nat,
)
    decreases ifaces.len(),
{
    if ifaces.len() == 0 {
        (0, 0)
    } else {
        let (rx, tx) = traffic_totals(ifaces.drop_last(), wanted);
        let last = ifaces.last();
        if interface_counts(last.name@, wanted) {
            ((rx + last.received) as nat, (tx + last.transmitted) as nat)
        } else {
            (rx, tx)
        }
    }
}

/// Each total only grows as interfaces are added.
proof fn lemma_traffic_totals_grow(ifaces: Seq<InterfaceTraffic>, wanted: Option<Seq<char>>, i: int)
    requires
        0 <= i <= ifaces.len(),
    ensures
        traffic_totals(ifaces.take(i), wanted).0 <= traffic_totals(ifaces, wanted).0,
        traffic_totals(ifaces.take(i), wanted).1 <= traffic_totals(ifaces, wanted).1,
    decreases ifaces.len() - i,
{
    if i < ifaces.len() {
        lemma_traffic_totals_grow(ifaces, wanted, i + 1);
        assert(ifaces.take(i + 1).drop_last() =~= ifaces.take(i));
    } else {
        assert(ifaces.take(i) =~= ifaces);
    }
}

/// The interfaces as `Option<Seq<char>>` for the specification.
pub open spec fn wanted_view(wanted: Option<&str>) -> Option<Seq<char>> {
    match wanted {
        Some(w) => Some(w@),
        None => None,
    }
}

/// Bytes received and sent over the interfaces that count, given the configured
/// interface; `None` when a total passes what a `u64` holds.
pub fn network_totals(ifaces: &Vec<InterfaceTraffic>, wanted: Option<&str>) -> (r: Option<
    (u64, u64),
>)
    ensures
        r is Some <==> (traffic_totals(ifaces@, wanted_view(wanted)).0 <= u64::MAX
            && traffic_totals(ifaces@, wanted_view(wanted)).1 <= u64::MAX),
        r matches Some(t) ==> t.0 == traffic_totals(ifaces@, wanted_view(wanted)).0 && t.1
            == traffic_totals(ifaces@, wanted_view(wanted)).1,
{
    let ghost w = wanted_view(wanted);
    let mut rx: u64 = 0;
    let mut tx: u64 = 0;
    let mut i: usize = 0;
    while i < ifaces.len()
        invariant
            i <= ifaces@.len(),
            w == wanted_view(wanted),
            rx == traffic_totals(ifaces@.take(i as int), w).0,
            tx == traffic_totals(ifaces@.take(i as int), w).1,
        decreases ifaces@.len() - i,
    {
        proof {
            assert(ifaces@.take(i + 1).drop_last() =~= ifaces@.take(i as int));
        }
        if include_interface(ifaces[i].name.as_str(), wanted) {
            let r = rx.checked_add(ifaces[i].received);
            let t = tx.checked_add(ifaces[i].transmitted);
            match (r, t) {
                (Some(r), Some(t)) => {
                    rx = r;
                    tx = t;
                },
                _ => {
                    proof {
                        lemma_traffic_totals_grow(ifaces@, w, i + 1);
                    }
                    return None;
                },
            }
        }
        i = i + 1;
    }
    assert(ifaces@.take(ifaces@.len() as int) =~= ifaces@);
    Some((rx, tx))
}

/// The bytes that moved since the last reading: none on the first reading (`previous`
/// is 0) or when the counter went backwards.
pub fn byte_delta(previous: u64, total: u64) -> (r: Option<u64>)
    ensures
        r is Some <==> (previous > 0 && total >= previous),
        r matches Some(d) ==> d == total - previous,
{
    if previous > 0 && total >= previous {
        Some(total - previous)
    } else {
        None
    }
}

/// `info` with the update-check answer `updates` (app updates, core update) put in.
pub open spec fn with_updates(info: ServerInfo, updates: (u64, bool)) -> ServerInfo {
    ServerInfo { app_updates: updates.0, core_update: updates.1, ..info }
}

/// Render-loop ticks (about one minute each) that a widget stays on the panel.
pub const WIDGET_ROTATE_TICKS: u32 = 5;

/// Render-loop ticks between two Nextcloud update checks (about an hour).
pub const UPDATE_CHECK_INTERVAL_TICKS: u32 = 60;

/// Samples each network graph keeps (the last hour).
pub const HISTORY_LEN: usize = 60;

/// What the render loop carries from one tick to the next.
#[derive(Clone, Copy, Debug)]
pub struct LoopState {
    pub widget_tick: u32,
    pub update_check_tick: u32,
    /// The last update check's answer: app updates, and whether a core update is out.
    pub cached_updates: (u64, bool),
}

impl LoopState {
    /// The state before the first tick.
    pub fn new() -> (s: LoopState)
        ensures
            s.widget_tick == 0 && s.update_check_tick == 0 && s.cached_updates == (0u64, false),
    {
        LoopState { widget_tick: 0, update_check_tick: 0, cached_updates: (0, false) }
    }

    /// Whether this tick runs the (costly) update check.
    pub fn update_check_due(&self) -> (b: bool)
        ensures
            b == (self.update_check_tick % UPDATE_CHECK_INTERVAL_TICKS == 0),
    {
        self.update_check_tick % UPDATE_CHECK_INTERVAL_TICKS == 0
    }

    /// Keeps the answer of an update check that succeeded; a failed one keeps the last.
    pub fn record_update_check(&mut self, result: Option<(u64, bool)>)
        ensures
            final(self).cached_updates == match result {
                Some(r) => r,
                None => old(self).cached_updates,
            },
            final(self).widget_tick == old(self).widget_tick,
            final(self).update_check_tick == old(self).update_check_tick,
    {
        if let Some(r) = result {
            self.cached_updates = r;
        }
    }

    /// Puts the cached update-check answer into the server information.
    pub fn apply_updates(&self, info: &mut ServerInfo)
        ensures
            final(info).app_updates == self.cached_updates.0,
            final(info).core_update == self.cached_updates.1,
            final(info).active_5m == old(info).active_5m,
            final(info).active_1h == old(info).active_1h,
            final(info).active_24h == old(info).active_24h,
            final(info).php_version == old(info).php_version,
            final(info).db_type == old(info).db_type,
            final(info).db_version == old(info).db_version,
            final(info).num_users == old(info).num_users,
            final(info).num_disabled_users == old(info).num_disabled_users,
            final(info).num_files == old(info).num_files,
            final(info).shares_user == old(info).shares_user,
            final(info).shares_group == old(info).shares_group,
            final(info).shares_link == old(info).shares_link,
            final(info).free_space == old(info).free_space,
    {
        info.app_updates = self.cached_updates.0;
        info.core_update = self.cached_updates.1;
    }

    /// The container to ask for updates on this tick: the configured Nextcloud
    /// container, when one is set and the check is due.
    pub fn update_check_container(&self, config: &Config) -> (r: Option<String>)
        ensures
            r is Some <==> config.nextcloud_container is Some && self.update_check_tick
                % UPDATE_CHECK_INTERVAL_TICKS == 0,
            r matches Some(c) ==> c@ == config.nextcloud_container->0@,
    {
        match &config.nextcloud_container {
            Some(c) => if self.update_check_due() {
                Some(c.clone())
            } else {
                None
            },
            None => None,
        }
    }

    /// Puts the cached update-check answer into the server information when a Nextcloud
    /// container is watched, and leaves it as it is otherwise.
    pub fn apply_watched_updates(&self, config: &Config, info: &mut ServerInfo)
        ensures
            *final(info) == if config.nextcloud_container is Some {
                with_updates(*old(info), self.cached_updates)
            } else {
                *old(info)
            },
    {
        if config.nextcloud_container.is_some() {
            self.apply_updates(info);
        }
    }

    /// Moves on to the next tick; the counters wrap around.
    pub fn advance(&mut self)
        ensures
            final(self).widget_tick == (old(self).widget_tick + 1) % 0x1_0000_0000,
            final(self).update_check_tick == (old(self).update_check_tick + 1) % 0x1_0000_0000,
            final(self).cached_updates == old(self).cached_updates,
    {
        self.widget_tick = if self.widget_tick == u32::MAX {
            0
        } else {
            self.widget_tick + 1
        };
        self.update_check_tick = if self.update_check_tick == u32::MAX {
            0
        } else {
            self.update_check_tick + 1
        };
    }

    /// Which of `count` enabled widgets is on the panel this tick, and how many ticks
    /// remain before the next one takes its place.
    pub fn widget_slot(&self, count: usize) -> (r: (usize, u32))
        requires
            count > 0,
        ensures
            r.0 == (self.widget_tick / WIDGET_ROTATE_TICKS) as int % count as int,
            r.1 == WIDGET_ROTATE_TICKS - self.widget_tick % WIDGET_ROTATE_TICKS,
            r.0 < count,
            1 <= r.1 <= WIDGET_ROTATE_TICKS,
    {
        let slot = (self.widget_tick / WIDGET_ROTATE_TICKS) as usize % count;
        let remaining = WIDGET_ROTATE_TICKS - self.widget_tick % WIDGET_ROTATE_TICKS;
        (slot, remaining)
    }
}

/// Adds a sample to a graph's history, dropping the oldest once it holds an hour.
pub fn push_sample<T>(history: &mut std::collections::VecDeque<T>, sample: T)
    ensures
        old(history)@.len() == HISTORY_LEN ==> final(history)@ == old(history)@.drop_first().push(
            sample,
        ),
        old(history)@.len() != HISTORY_LEN ==> final(history)@ == old(history)@.push(sample),
{
    if history.len() == HISTORY_LEN {
        history.pop_front();
    }
    history.push_back(sample);
}

/// Nanoseconds to sleep until the next minute begins, given the current second
/// (0 to 59) and nanosecond; never less than a second.
pub open spec fn sleep_until_minute(second: nat, nanosecond: nat) -> nat {
    let n = nanosecond % 1_000_000_000;
    let raw = (60 - second) * 1_000_000_000 - n + (1_000_000_000 - n);
    if raw >= 1_000_000_000 {
        raw as nat
    } else {
        1_000_000_000
    }
}

/// Nanoseconds to sleep until the next minute begins.
pub fn sleep_nanos(second: u32, nanosecond: u32) -> (r: u64)
    requires
        second < 60,
    ensures
        r == sleep_until_minute(second as nat, nanosecond as nat),
{
    let n: u64 = (nanosecond % 1_000_000_000) as u64;
    let secs: u64 = (60 - second) as u64;
    let raw: u64 = secs * 1_000_000_000 - n + (1_000_000_000 - n);
    if raw >= 1_000_000_000 {
        raw
    } else {
        1_000_000_000
    }
}

} // verus!

verus! {

/// The Nextcloud status badge.
pub open spec fn status_text(online: bool) -> Seq<char> {
    if online {
        "[ NEXTCLOUD: ONLINE ]"@
    } else {
        "[ NEXTCLOUD: OFFLINE ]"@
    }
}

/// The Nextcloud status badge.
pub fn status_label(online: bool) -> (s: &'static str)
    ensures
        s@ == status_text(online),
{
    if online {
        "[ NEXTCLOUD: ONLINE ]"
    } else {
        "[ NEXTCLOUD: OFFLINE ]"
    }
}

/// The Nextcloud version label: the version when online and known, else a dash.
pub open spec fn version_text(online: bool, version: Seq<char>) -> Seq<char> {
    if online && version.len() > 0 {
        "NC VER: "@ + version
    } else {
        "NC VER: -"@
    }
}

/// The Nextcloud version label.
pub fn version_label(online: bool, version: &str) -> (s: String)
    ensures
        s@ == version_text(online, version@),
{
    let mut out: Vec<char> = Vec::new();
    if online && !version.is_empty() {
        push_str(&mut out, "NC VER: ");
        push_str(&mut out, version);
    } else {
        push_str(&mut out, "NC VER: -");
    }
    string_from_chars(&out)
}

/// The latency label: milliseconds when online.
pub open spec fn latency_text(online: bool, latency_ms: u32) -> Seq<char> {
    if online {
        "LATENCY: "@ + decimal(latency_ms as nat) + "MS"@
    } else {
        "LATENCY: N/A"@
    }
}

/// The latency label.
pub fn latency_label(online: bool, latency_ms: u32) -> (s: String)
    ensures
        s@ == latency_text(online, latency_ms),
{
    let mut out: Vec<char> = Vec::new();
    if online {
        push_str(&mut out, "LATENCY: ");
        push_decimal(&mut out, latency_ms as u64);
        push_str(&mut out, "MS");
    } else {
        push_str(&mut out, "LATENCY: N/A");
    }
    string_from_chars(&out)
}

/// The uptime label.
pub fn uptime_label(secs: u64) -> (s: String)
    ensures
        s@ == "UPTIME: "@ + uptime_text(secs as nat),
{
    let mut out = chars_of("UPTIME: ");
    let u = format_uptime(secs);
    push_str(&mut out, u.as_str());
    string_from_chars(&out)
}

/// The active-users label: the counts over 5 minutes, 1 hour and 24 hours when online
/// and any is non-zero, else dashes.
pub open spec fn users_text(online: bool, info: ServerInfo) -> Seq<char> {
    if online && (info.active_5m > 0 || info.active_1h > 0 || info.active_24h > 0) {
        "USERS: "@ + decimal(info.active_5m as nat) + "/"@ + decimal(info.active_1h as nat) + "/"@
            + decimal(info.active_24h as nat) + " (5M/1H/24H)"@
    } else {
        "USERS: -/-/- (5M/1H/24H)"@
    }
}

/// The active-users label.
pub fn users_label(online: bool, info: &ServerInfo) -> (s: String)
    ensures
        s@ == users_text(online, *info),
{
    let mut out: Vec<char> = Vec::new();
    if online && (info.active_5m > 0 || info.active_1h > 0 || info.active_24h > 0) {
        push_str(&mut out, "USERS: ");
        push_decimal(&mut out, info.active_5m);
        push_str(&mut out, "/");
        push_decimal(&mut out, info.active_1h);
        push_str(&mut out, "/");
        push_decimal(&mut out, info.active_24h);
        push_str(&mut out, " (5M/1H/24H)");
    } else {
        push_str(&mut out, "USERS: -/-/- (5M/1H/24H)");
    }
    string_from_chars(&out)
}

/// The alert for pending app updates, when there are any.
pub fn app_updates_alert(app_updates: u64) -> (r: Option<String>)
    ensures
        r is Some <==> app_updates > 0,
        r matches Some(s) ==> s@ == decimal(app_updates as nat) + " APP UPDATES PENDING"@,
{
    if app_updates > 0 {
        let mut out: Vec<char> = Vec::new();
        push_decimal(&mut out, app_updates);
        push_str(&mut out, " APP UPDATES PENDING");
        Some(string_from_chars(&out))
    } else {
        None
    }
}

/// `s`, or a dash when it is empty.
pub open spec fn or_dash(s: Seq<char>) -> Seq<char> {
    if s.len() == 0 {
        "-"@
    } else {
        s
    }
}

/// The PHP and database line of the Nextcloud panel, with `db_upper` standing for the
/// database type in upper case.
pub open spec fn php_db_text_with(info: ServerInfo, db_upper: Seq<char>) -> Seq<char> {
    let db = if info.db_type@.len() == 0 {
        "-"@
    } else {
        db_upper
    };
    "PHP "@ + or_dash(info.php_version@) + " / "@ + db + " "@ + or_dash(info.db_version@)
}

/// The PHP and database line of the Nextcloud panel; the database type in upper case.
pub open spec fn php_db_text(info: ServerInfo) -> Seq<char> {
    php_db_text_with(info, uppercase(info.db_type@))
}

fn push_or_dash(out: &mut Vec<char>, s: &String)
    ensures
        final(out)@ == old(out)@ + or_dash(s@),
{
    if s.as_str().is_empty() {
        push_str(out, "-");
    } else {
        push_str(out, s.as_str());
    }
}

/// The PHP and database line of the Nextcloud panel, given the database type already in
/// upper case.
pub fn php_db_line_with(info: &ServerInfo, db_upper: &str) -> (s: String)
    ensures
        s@ == php_db_text_with(*info, db_upper@),
{
    let mut out = chars_of("PHP ");
    push_or_dash(&mut out, &info.php_version);
    push_str(&mut out, " / ");
    if info.db_type.as_str().is_empty() {
        push_str(&mut out, "-");
    } else {
        push_str(&mut out, db_upper);
    }
    push_str(&mut out, " ");
    push_or_dash(&mut out, &info.db_version);
    string_from_chars(&out)
}

/// The PHP and database line of the Nextcloud panel.
pub fn php_db_line(info: &ServerInfo) -> (s: String)
    ensures
        s@ == php_db_text(*info),
        is_ascii_text(info.db_type@) ==> s@ == php_db_text_with(
            *info,
            ascii_uppercase(info.db_type@),
        ),
{
    let upper = to_uppercase(info.db_type.as_str());
    php_db_line_with(info, upper.as_str())
}

/// The registered-users line of the Nextcloud panel, with the disabled ones when any.
pub open spec fn registered_text(info: ServerInfo) -> Seq<char> {
    if info.num_disabled_users > 0 {
        "USERS: "@ + decimal(info.num_users as nat) + " REGISTERED ("@ + decimal(
            info.num_disabled_users as nat,
        ) + " DISABLED)"@
    } else {
        "USERS: "@ + decimal(info.num_users as nat) + " REGISTERED"@
    }
}

/// The registered-users line of the Nextcloud panel.
pub fn registered_line(info: &ServerInfo) -> (s: String)
    ensures
        s@ == registered_text(*info),
{
    let mut out = chars_of("USERS: ");
    push_decimal(&mut out, info.num_users);
    if info.num_disabled_users > 0 {
        push_str(&mut out, " REGISTERED (");
        push_decimal(&mut out, info.num_disabled_users);
        push_str(&mut out, " DISABLED)");
    } else {
        push_str(&mut out, " REGISTERED");
    }
    string_from_chars(&out)
}

/// The shares line of the Nextcloud panel.
pub fn shares_line(info: &ServerInfo) -> (s: String)
    ensures
        s@ == "SHARES: "@ + decimal(info.shares_user as nat) + " USR / "@ + decimal(
            info.shares_group as nat,
        ) + " GRP / "@ + decimal(info.shares_link as nat) + " LINK"@,
{
    let mut out = chars_of("SHARES: ");
    push_decimal(&mut out, info.shares_user);
    push_str(&mut out, " USR / ");
    push_decimal(&mut out, info.shares_group);
    push_str(&mut out, " GRP / ");
    push_decimal(&mut out, info.shares_link);
    push_str(&mut out, " LINK");
    string_from_chars(&out)
}

/// The headline of the Docker widget.
pub fn containers_running_line(running: u32) -> (s: String)
    ensures
        s@ == decimal(running as nat) + " CONTAINERS RUNNING"@,
{
    let mut out: Vec<char> = Vec::new();
    push_decimal(&mut out, running as u64);
    push_str(&mut out, " CONTAINERS RUNNING");
    string_from_chars(&out)
}

/// What the panel says of a widget whose data could not be had.
pub fn unavailable_line(kind: WidgetKind) -> (s: String)
    ensures
        s@ == widget_label(kind) + ": UNAVAILABLE"@,
{
    let mut out = chars_of(kind.label());
    push_str(&mut out, ": UNAVAILABLE");
    string_from_chars(&out)
}

/// The Nextcloud URL without its `https://` or, failing that, `http://` prefix.
pub open spec fn shown_url(url: Seq<char>) -> Seq<char> {
    match strip_prefix(url, "https://"@) {
        Some(rest) => rest,
        None => match strip_prefix(url, "http://"@) {
            Some(rest) => rest,
            None => url,
        },
    }
}

/// The summary line that names the Nextcloud URL.
pub fn url_line(url: &str) -> (s: String)
    ensures
        s@ == "NEXTCLOUD URL: "@ + shown_url(url@),
{
    let u = chars_of(url);
    let https = chars_of("https://");
    let http = chars_of("http://");
    let mut out = chars_of("NEXTCLOUD URL: ");
    if starts_with_exec(&u, &https) {
        let rest = slice_chars(&u, https.len(), u.len());
        push_chars(&mut out, &rest);
    } else if starts_with_exec(&u, &http) {
        let rest = slice_chars(&u, http.len(), u.len());
        push_chars(&mut out, &rest);
    } else {
        push_chars(&mut out, &u);
    }
    string_from_chars(&out)
}

/// The marker and caption of widget `i` in the panel's header: `*` for the one shown.
pub open spec fn widget_dot(kinds: Seq<WidgetKind>, active: int, i: int) -> Seq<char> {
    (if i == active {
        "*"@
    } else {
        "o"@
    }) + " "@ + widget_label(kinds[i])
}

/// The panel header that lists the enabled widgets, two spaces apart.
pub open spec fn widget_dots_text(kinds: Seq<WidgetKind>, active: int) -> Seq<char> {
    join(Seq::new(kinds.len(), |i: int| widget_dot(kinds, active, i)), "  "@)
}

/// The panel header that lists the enabled widgets, marking the one shown.
pub fn widget_dots(kinds: &Vec<WidgetKind>, active: usize) -> (s: String)
    ensures
        s@ == widget_dots_text(kinds@, active as int),
{
    let ghost all = Seq::new(kinds@.len(), |i: int| widget_dot(kinds@, active as int, i));
    let mut parts: Vec<Vec<char>> = Vec::new();
    let mut i: usize = 0;
    while i < kinds.len()
        invariant
            i <= kinds@.len(),
            all == Seq::new(kinds@.len(), |i: int| widget_dot(kinds@, active as int, i)),
            texts_view(parts@) == all.take(i as int),
        decreases kinds@.len() - i,
    {
        let ghost before = texts_view(parts@);
        let mut part = if i == active {
            chars_of("*")
        } else {
            chars_of("o")
        };
        push_str(&mut part, " ");
        push_str(&mut part, kinds[i].label());
        assert(part@ == all[i as int]);
        parts.push(part);
        assert(texts_view(parts@) =~= before.push(all[i as int]));
        i = i + 1;
        assert(texts_view(parts@) =~= all.take(i as int));
    }
    assert(all.take(all.len() as int) =~= all);
    let mut out: Vec<char> = Vec::new();
    push_joined(&mut out, &parts, &chars_of("  "));
    string_from_chars(&out)
}

/// The caption under the panel: the widget shown, its place, and the next one.
pub open spec fn widget_caption_text(kinds: Seq<WidgetKind>, active: int, ticks_remaining: u32) -> Seq<
    char,
> {
    widget_label(kinds[active]) + " ("@ + decimal((active + 1) as nat) + "/"@ + decimal(
        kinds.len(),
    ) + ") - NEXT: "@ + widget_label(kinds[(active + 1) % (kinds.len() as int)]) + " IN "@
        + decimal(ticks_remaining as nat) + "M"@
}

/// The caption under the panel: the widget shown, its place, and the next one.
pub fn widget_caption(kinds: &Vec<WidgetKind>, active: usize, ticks_remaining: u32) -> (s: String)
    requires
        active < kinds@.len(),
    ensures
        s@ == widget_caption_text(kinds@, active as int, ticks_remaining),
{
    let n = kinds.len();
    let next = kinds[(active + 1) % n];
    let mut out = chars_of(kinds[active].label());
    push_str(&mut out, " (");
    push_decimal(&mut out, (active + 1) as u64);
    push_str(&mut out, "/");
    push_decimal(&mut out, kinds.len() as u64);
    push_str(&mut out, ") - NEXT: ");
    push_str(&mut out, next.label());
    push_str(&mut out, " IN ");
    push_decimal(&mut out, ticks_remaining as u64);
    push_str(&mut out, "M");
    string_from_chars(&out)
}

} // verus!

verus! {

/// The panel shows a widget for `WIDGET_ROTATE_TICKS` ticks, counting the remaining
/// ticks down to 1, then moves on to the next enabled widget, after the last back to
/// the first; so every enabled widget comes round.
pub proof fn lemma_widget_rotation(tick: u32, count: nat)
    requires
        count > 0,
        tick + 1 <= u32::MAX,
    ensures
        ({
            let slot = |t: int| (t / WIDGET_ROTATE_TICKS as int) % (count as int);
            let remaining = |t: int| WIDGET_ROTATE_TICKS - t % WIDGET_ROTATE_TICKS as int;
            &&& remaining(tick as int) > 1 ==> slot(tick + 1) == slot(tick as int) && remaining(
                tick + 1,
            ) == remaining(tick as int) - 1
            &&& remaining(tick as int) == 1 ==> slot(tick + 1) == (slot(tick as int) + 1) % (
            count as int) && remaining(tick + 1) == WIDGET_ROTATE_TICKS
        }),
{
    let t = tick as int;
    let c = count as int;
    if t % 5 == 4 {
        assert((t + 1) / 5 == t / 5 + 1 && (t + 1) % 5 == 0);
        assert(((t / 5 + 1) % c) == ((t / 5) % c + 1) % c) by {
            if c == 1 {
                vstd::arithmetic::div_mod::lemma_mod_self_0(1);
                vstd::arithmetic::div_mod::lemma_mod_multiples_basic(t / 5 + 1, 1);
                vstd::arithmetic::div_mod::lemma_mod_multiples_basic((t / 5) % c + 1, 1);
            } else {
                vstd::arithmetic::div_mod::lemma_add_mod_noop(t / 5, 1, c);
                vstd::arithmetic::div_mod::lemma_small_mod(1nat, c as nat);
            }
        }
    } else {
        assert((t + 1) / 5 == t / 5 && (t + 1) % 5 == t % 5 + 1);
    }
}

} // verus!

verus! {

/// The index of the first key that starts with `prefix` (Firefly III names its summary
/// entries by currency, as in `bills-paid-in-EUR`).
pub fn find_prefixed(keys: &Vec<String>, prefix: &str) -> (r: Option<usize>)
    ensures
        r is Some <==> exists|i: int|
            0 <= i < keys@.len() && starts_with(#[trigger] strings_view(keys@)[i], prefix@),
        r matches Some(i) ==> i < keys@.len() && starts_with(strings_view(keys@)[i as int], prefix@)
            && forall|j: int|
            0 <= j < i ==> !starts_with(#[trigger] strings_view(keys@)[j], prefix@),
{
    let p = chars_of(prefix);
    let ghost kv = strings_view(keys@);
    let mut i: usize = 0;
    while i < keys.len()
        invariant
            i <= keys@.len(),
            kv == strings_view(keys@),
            p@ == prefix@,
            forall|j: int| 0 <= j < i ==> !starts_with(#[trigger] kv[j], prefix@),
        decreases keys@.len() - i,
    {
        let k = chars_of(keys[i].as_str());
        assert(k@ == kv[i as int]);
        if starts_with_exec(&k, &p) {
            return Some(i);
        }
        i = i + 1;
    }
    None
}

/// The URL of Firefly III's summary for the days from `start` to `end`.
pub fn firefly_summary_url(base: &str, start: &str, end: &str) -> (s: String)
    ensures
        s@ == trim_slashes(base@) + "/api/v1/summary/basic?start="@ + start@ + "&end="@ + end@,
{
    let b = chars_of(base);
    let mut out = trim_slashes_exec(&b);
    push_str(&mut out, "/api/v1/summary/basic?start=");
    push_str(&mut out, start);
    push_str(&mut out, "&end=");
    push_str(&mut out, end);
    string_from_chars(&out)
}

/// The URL of one CouchDB database.
pub fn couchdb_url(base: &str, db: &str) -> (s: String)
    ensures
        s@ == trim_slashes(base@) + "/"@ + db@,
{
    let b = chars_of(base);
    let mut out = trim_slashes_exec(&b);
    push_str(&mut out, "/");
    push_str(&mut out, db);
    string_from_chars(&out)
}

/// How the CouchDB databases of the Obsidian vault are asked: the URL of each, in the
/// configured order, and the basic authentication when a user is set.
#[derive(Clone, Debug)]
pub struct CouchDbRequest {
    pub urls: Vec<String>,
    /// The user and, when set, the password.
    pub basic_auth: Option<(String, Option<String>)>,
}

/// Whether the Obsidian widget asks CouchDB at all: a URL and at least one database are
/// set.
pub open spec fn obsidian_wanted(config: Config) -> bool {
    &&& config.couchdb_url is Some
    &&& config.couchdb_databases matches Some(dbs) && dbs@.len() > 0
}

/// The CouchDB requests of the Obsidian widget, when the configuration allows them.
pub fn obsidian_request(config: &Config) -> (r: Option<CouchDbRequest>)
    ensures
        r is Some <==> obsidian_wanted(*config),
        r matches Some(req) ==> {
            let base = config.couchdb_url->0@;
            let dbs = config.couchdb_databases->0@;
            &&& req.urls@.len() == dbs.len()
            &&& forall|i: int|
                0 <= i < dbs.len() ==> #[trigger] req.urls@[i]@ == trim_slashes(base) + "/"@
                    + dbs[i]@
            &&& match config.couchdb_user {
                Some(user) => req.basic_auth matches Some((u, p)) && u@ == user@ && p
                    == config.couchdb_password,
                None => req.basic_auth is None,
            }
        },
{
    let base = match &config.couchdb_url {
        Some(b) => b,
        None => return None,
    };
    let dbs = match &config.couchdb_databases {
        Some(d) => d,
        None => return None,
    };
    if dbs.len() == 0 {
        return None;
    }
    let mut urls: Vec<String> = Vec::new();
    let mut i: usize = 0;
    while i < dbs.len()
        invariant
            i <= dbs@.len(),
            urls@.len() == i,
            forall|j: int|
                0 <= j < i ==> #[trigger] urls@[j]@ == trim_slashes(base@) + "/"@ + dbs@[j]@,
        decreases dbs@.len() - i,
    {
        urls.push(couchdb_url(base.as_str(), dbs[i].as_str()));
        i = i + 1;
    }
    let basic_auth = match &config.couchdb_user {
        Some(user) => Some((user.clone(), config.couchdb_password.clone())),
        None => None,
    };
    Some(CouchDbRequest { urls, basic_auth })
}

/// The grey level of the frame that scrubs ghosting before each redraw: white in the
/// dark theme, black in the light one.
pub fn clear_level(config: &Config) -> (v: u8)
    ensures
        v == if config.theme != Some(Theme::Light) { 255u8 } else { 0u8 },
{
    if config.is_dark() {
        255
    } else {
        0
    }
}

} // verus!

verus! {

/// The grey level of the frame that scrubs ghosting: white in the dark theme, black in
/// the light one.
pub open spec fn clear_level_of(config: Config) -> u8 {
    if config.theme != Some(Theme::Light) {
        255u8
    } else {
        0u8
    }
}

/// A `width` by `height` frame of the grey level `level`.
pub open spec fn uniform_frame(width: u32, height: u32, level: u8) -> Seq<u8> {
    Seq::new((width * height) as nat, |i: int| level)
}

/// The commands of one redraw of the dashboard: a frame of the clear level over the
/// whole panel, refreshed in `Mode::GC16` to scrub ghosting, then `frame` (`frame_width`
/// by `frame_height`, turned by 180 degrees when the configuration says so) refreshed in
/// `Mode::DU`. `None` when the panel's bytes do not fit in memory's address range.
pub fn dashboard_commands(
    display: &Display,
    frame: &Vec<u8>,
    frame_width: u32,
    frame_height: u32,
    config: &Config,
) -> (r: Option<Vec<ScsiCommand>>)
    requires
        frame@.len() == frame_width * frame_height,
    ensures
        r is None <==> display.system_info().width * display.system_info().height > usize::MAX,
        r matches Some(cmds) ==> {
            let w = display.system_info().width;
            let h = display.system_info().height;
            let address = display.system_info().image_buffer_base;
            let n = chunk_count((w * h) as nat) + 1int;
            let drawn = if config.flip == Some(true) {
                frame@.reverse()
            } else {
                frame@
            };
            &&& n <= cmds@.len()
            &&& loads_then_refreshes(
                address,
                uniform_frame(w, h, clear_level_of(*config)),
                w,
                h,
                w,
                h,
                Mode::GC16,
                views(cmds@).take(n),
            )
            &&& loads_then_refreshes(
                address,
                drawn,
                frame_width,
                frame_height,
                w,
                h,
                Mode::DU,
                views(cmds@).skip(n),
            )
        },
{
    let info = display.info();
    let w = info.width;
    let h = info.height;
    let count = match (w as usize).checked_mul(h as usize) {
        Some(c) => c,
        None => return None,
    };
    let level = clear_level(config);
    let mut clear: Vec<u8> = Vec::new();
    let mut i: usize = 0;
    while i < count
        invariant
            i <= count,
            clear@.len() == i,
            forall|j: int| 0 <= j < i ==> clear@[j] == level,
        decreases count - i,
    {
        clear.push(level);
        i = i + 1;
    }
    assert(clear@ =~= uniform_frame(w, h, clear_level_of(*config)));
    let mut cmds = display.load_and_refresh(clear.as_slice(), w, h, Mode::GC16);
    let drawn = if config.is_flipped() {
        rotate180(frame, frame_width, frame_height)
    } else {
        frame.clone()
    };
    let mut rest = display.load_and_refresh(drawn.as_slice(), frame_width, frame_height, Mode::DU);
    let ghost first = cmds@;
    let ghost second = rest@;
    cmds.append(&mut rest);
    assert(views(cmds@).take(first.len() as int) =~= views(first));
    assert(views(cmds@).skip(first.len() as int) =~= views(second));
    Some(cmds)
}

} // verus!

verus! {

/// With no interface configured, loopback, Docker, veth, bridge, libvirt, tunnel and tap
/// interfaces never count, and every other interface does; with one configured, exactly
/// the interface of that name counts.
pub proof fn lemma_interfaces_that_count(name: Seq<char>, wanted: Seq<char>)
    ensures
        starts_with(name, "lo"@) ==> !interface_counts(name, None),
        starts_with(name, "docker"@) ==> !interface_counts(name, None),
        starts_with(name, "veth"@) ==> !interface_counts(name, None),
        starts_with(name, "br-"@) ==> !interface_counts(name, None),
        starts_with(name, "virbr"@) ==> !interface_counts(name, None),
        starts_with(name, "tun"@) ==> !interface_counts(name, None),
        starts_with(name, "tap"@) ==> !interface_counts(name, None),
        !starts_with(name, "lo"@) && !starts_with(name, "docker"@) && !starts_with(name, "veth"@)
            && !starts_with(name, "br-"@) && !starts_with(name, "virbr"@) && !starts_with(
            name,
            "tun"@,
        ) && !starts_with(name, "tap"@) ==> interface_counts(name, None),
        interface_counts(name, Some(wanted)) <==> name == wanted,
{
}

/// The name of a `docker ps` line when it lists a container that is not running:
/// every line with a non-empty name whose state is anything but `running`.
pub open spec fn stopped_name(line: Seq<char>) -> Option<Seq<char>> {
    let (name, state) = split_once(line, '\t');
    if state != "running"@ && name.len() > 0 {
        Some(name)
    } else {
        None
    }
}

/// Whether a `docker ps` line lists a running container.
pub open spec fn is_running_line(line: Seq<char>) -> bool {
    split_once(line, '\t').1 == "running"@
}

/// Reading `docker ps` lines: the running count is the number of lines in the
/// `running` state, and the stopped list is, in order, the name of every other line
/// with a non-empty name, whatever its state; so each such name is listed.
pub proof fn lemma_docker_lines(ls: Seq<Seq<char>>)
    ensures
        docker_tally(ls).0 == ls.filter(|l: Seq<char>| is_running_line(l)).len(),
        docker_tally(ls).1 == ls.filter_map(|l: Seq<char>| stopped_name(l)),
        forall|i: int|
            0 <= i < ls.len() && split_once(ls[i], '\t').1 != "running"@ && split_once(
                ls[i],
                '\t',
            ).0.len() > 0 ==> docker_tally(ls).1.contains(#[trigger] split_once(ls[i], '\t').0),
    decreases ls.len(),
{
    if ls.len() > 0 {
        let rest = ls.drop_last();
        lemma_docker_lines(rest);
        let tally = docker_tally(ls).1;
        assert forall|i: int|
            0 <= i < ls.len() && split_once(ls[i], '\t').1 != "running"@ && split_once(
                ls[i],
                '\t',
            ).0.len() > 0 implies tally.contains(#[trigger] split_once(ls[i], '\t').0) by {
            if i < ls.len() - 1 {
                assert(rest[i] == ls[i]);
                let n = split_once(rest[i], '\t').0;
                assert(docker_tally(rest).1.contains(n));
                let k = choose|k: int| 0 <= k < docker_tally(rest).1.len() && docker_tally(rest).1[k] == n;
                assert(tally[k] == n);
            } else {
                assert(tally[tally.len() - 1] == split_once(ls[i], '\t').0);
            }
        }
        reveal(Seq::filter);
        assert(ls.filter(|l: Seq<char>| is_running_line(l)).len() == if is_running_line(ls.last()) {
            rest.filter(|l: Seq<char>| is_running_line(l)).len() + 1
        } else {
            rest.filter(|l: Seq<char>| is_running_line(l)).len()
        });
        assert(ls.filter_map(|l: Seq<char>| stopped_name(l)) =~= match stopped_name(ls.last()) {
            Some(n) => rest.filter_map(|l: Seq<char>| stopped_name(l)) + seq![n],
            None => rest.filter_map(|l: Seq<char>| stopped_name(l)),
        });
    }
}

/// The active-users label shows the three counts, in decimal, exactly when Nextcloud is
/// online and any of the counts over 5 minutes, 1 hour or 24 hours is non-zero; dashes
/// otherwise.
pub proof fn lemma_users_label(online: bool, info: ServerInfo)
    ensures
        online && (info.active_5m > 0 || info.active_1h > 0 || info.active_24h > 0) ==> users_text(
            online,
            info,
        ) == "USERS: "@ + decimal(info.active_5m as nat) + "/"@ + decimal(info.active_1h as nat)
            + "/"@ + decimal(info.active_24h as nat) + " (5M/1H/24H)"@,
        !online ==> users_text(online, info) == "USERS: -/-/- (5M/1H/24H)"@,
        info.active_5m == 0 && info.active_1h == 0 && info.active_24h == 0 ==> users_text(
            online,
            info,
        ) == "USERS: -/-/- (5M/1H/24H)"@,
{
}

/// Basic authentication against Nextcloud: a user with an app token always sends the
/// token, whatever the password; a user without a token sends the password; nothing is
/// sent without a user, or without any secret.
pub proof fn lemma_nc_credentials(config: Config)
    ensures
        config.nextcloud_user is Some && config.nextcloud_token is Some ==> nc_credentials(config)
            == Some((config.nextcloud_user->0@, config.nextcloud_token->0@)),
        config.nextcloud_user is Some && config.nextcloud_token is None
            && config.nextcloud_password is Some ==> nc_credentials(config) == Some(
            (config.nextcloud_user->0@, config.nextcloud_password->0@),
        ),
        config.nextcloud_user is None ==> nc_credentials(config) is None,
        config.nextcloud_token is None && config.nextcloud_password is None ==> nc_credentials(
            config,
        ) is None,
{
}

} // verus!
