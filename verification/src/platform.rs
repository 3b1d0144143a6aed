//! Platform integration logic: provider diagnostics, GPX waypoint documents
//! with XML escaping, and the Android Debug Bridge device list and geo fixes.
use vstd::prelude::*;

use crate::text::{
    chars_of, lines_of, owned, push_char, same_text, text_lines, trim, trim_text, views, words,
    words_of,
};

verus! {

/// Metadata describing how the platform provides simulated locations.
pub struct ProviderDiagnostics {
    pub platform_name: String,
    pub mechanism_name: String,
    pub os_mechanism_description: String,
    pub browser_integration_guide: String,
    pub exported_files: Vec<String>,
    pub is_elevated: bool,
    pub elevation_note: Option<String>,
}

/// The XML text for one character: the five markup characters become entities.
pub open spec fn escape_char(c: char) -> Seq<char> {
    if c == '&' {
        "&amp;"@
    } else if c == '<' {
        "&lt;"@
    } else if c == '>' {
        "&gt;"@
    } else if c == '"' {
        "&quot;"@
    } else if c == '\'' {
        "&apos;"@
    } else {
        seq![c]
    }
}

/// `s` with every markup character replaced by its XML entity.
pub open spec fn xml_escaped(s: Seq<char>) -> Seq<char>
    decreases s.len(),
{
    if s.len() == 0 {
        Seq::empty()
    } else {
        xml_escaped(s.drop_last()) + escape_char(s.last())
    }
}

/// Escapes `&`, `<`, `>`, `"` and `'` for XML text and attribute values.
pub fn quick_xml_escape(raw: &str) -> (r: String)
    ensures
        r@ == xml_escaped(raw@),
{
    let v = chars_of(raw);
    let mut r = String::new();
    let mut i: usize = 0;
    assert(v@.take(0) =~= Seq::<char>::empty());
    while i < v.len()
        invariant
            v@ == raw@,
            i <= v.len(),
            r@ == xml_escaped(v@.take(i as int)),
        decreases v.len() - i,
    {
        let c = v[i];
        assert(v@.take(i + 1).drop_last() =~= v@.take(i as int));
        if c == '&' {
            r.append("&amp;");
        } else if c == '<' {
            r.append("&lt;");
        } else if c == '>' {
            r.append("&gt;");
        } else if c == '"' {
            r.append("&quot;");
        } else if c == '\'' {
            r.append("&apos;");
        } else {
            push_char(&mut r, c);
        }
        i = i + 1;
    }
    assert(v@.take(v.len() as int) =~= v@);
    r
}

/// The GPX 1.1 document with one waypoint at the given (already formatted)
/// coordinates, named and described by the escaped texts.
pub open spec fn gpx_text(lat: Seq<char>, lon: Seq<char>, name: Seq<char>, desc: Seq<char>) -> Seq<
    char,
> {
    "<?xml version=\"1.0\" encoding=\"UTF-8\"?>\n<gpx version=\"1.1\" creator=\"locsim\" xmlns=\"http://www.topografix.com/GPX/1/1\">\n  <wpt lat=\""@
        + lat + "\" lon=\""@ + lon + "\">\n    <name>"@ + xml_escaped(name)
        + "</name>\n    <desc>"@ + xml_escaped(desc) + "</desc>\n  </wpt>\n</gpx>\n"@
}

/// A GPX waypoint document for GPS simulators, Xcode and mapping tools; the
/// coordinates come formatted with six decimals.
pub fn gpx_document(lat: &str, lon: &str, name: &str, desc: &str) -> (r: String)
    ensures
        r@ == gpx_text(lat@, lon@, name@, desc@),
{
    let mut r = owned(
        "<?xml version=\"1.0\" encoding=\"UTF-8\"?>\n<gpx version=\"1.1\" creator=\"locsim\" xmlns=\"http://www.topografix.com/GPX/1/1\">\n  <wpt lat=\"",
    );
    r.append(lat);
    r.append("\" lon=\"");
    r.append(lon);
    r.append("\">\n    <name>");
    let n = quick_xml_escape(name);
    r.append(n.as_str());
    r.append("</name>\n    <desc>");
    let d = quick_xml_escape(desc);
    r.append(d.as_str());
    r.append("</desc>\n  </wpt>\n</gpx>\n");
    r
}

/// The device serial that a line of `adb devices` reports, if it reports one
/// in the `device` or `emulator` state.
pub open spec fn device_of_line(line: Seq<char>) -> Option<Seq<char>> {
    let w = words(line);
    if w.len() >= 2 && (w[1] == "device"@ || w[1] == "emulator"@) {
        Some(w[0])
    } else {
        None
    }
}

/// The serials that a list of lines reports, in order.
pub open spec fn devices_in(lines: Seq<Seq<char>>) -> Seq<Seq<char>>
    decreases lines.len(),
{
    if lines.len() == 0 {
        Seq::empty()
    } else {
        let prev = devices_in(lines.drop_last());
        match device_of_line(lines.last()) {
            Some(d) => prev.push(d),
            None => prev,
        }
    }
}

/// The serials that the output of `adb devices` lists after its header line.
pub open spec fn adb_devices(stdout: Seq<char>) -> Seq<Seq<char>> {
    let ls = text_lines(stdout);
    if ls.len() == 0 {
        Seq::empty()
    } else {
        devices_in(ls.skip(1))
    }
}

/// The version line that `adb --version` prints first, trimmed; "ADB" when
/// it prints nothing.
pub open spec fn adb_version_text(stdout: Seq<char>) -> Seq<char> {
    let ls = text_lines(stdout);
    if ls.len() == 0 {
        trim("ADB"@)
    } else {
        trim(ls[0])
    }
}

/// Diagnostics and devices of the Android Debug Bridge.
pub struct AndroidStatus {
    pub adb_available: bool,
    pub adb_version: Option<String>,
    pub running_emulators: Vec<String>,
}

/// Integration with Android emulators through the Android Debug Bridge.
pub struct AndroidBridge;

/// What running an `adb` command came to.
pub enum CommandOutcome {
    /// It ran and exited successfully.
    Succeeded,
    /// It ran and exited with a failure status.
    Failed,
    /// It could not be run; the message says why.
    CouldNotRun(String),
}

impl AndroidBridge {
    /// Parses the output of `adb devices`: every line after the header whose
    /// second word is `device` or `emulator` gives its first word.
    pub fn parse_adb_devices(stdout: &str) -> (r: Vec<String>)
        ensures
            views(r@) == adb_devices(stdout@),
    {
        let lines = lines_of(stdout);
        let ghost ls = views(lines@);
        let mut devices: Vec<String> = Vec::new();
        if lines.len() == 0 {
            assert(views(devices@) =~= Seq::<Seq<char>>::empty());
            return devices;
        }
        let mut i: usize = 1;
        assert(ls.skip(1).take(0) =~= Seq::<Seq<char>>::empty());
        assert(views(devices@) =~= Seq::<Seq<char>>::empty());
        while i < lines.len()
            invariant
                ls == views(lines@),
                ls == text_lines(stdout@),
                1 <= i <= lines.len(),
                views(devices@) == devices_in(ls.skip(1).take(i - 1)),
            decreases lines.len() - i,
        {
            let parts = words_of(lines[i].as_str());
            let ghost w = views(parts@);
            assert(ls.skip(1).take(i as int).drop_last() =~= ls.skip(1).take(i - 1));
            assert(ls.skip(1).take(i as int).last() == lines@[i as int]@);
            let ghost before = views(devices@);
            if parts.len() >= 2 && (same_text(parts[1].as_str(), "device") || same_text(
                parts[1].as_str(),
                "emulator",
            )) {
                assert(w[1] == parts@[1]@);
                assert(w[0] == parts@[0]@);
                devices.push(parts[0].clone());
                assert(views(devices@) =~= before.push(w[0]));
            } else {
                assert(parts.len() >= 2 ==> w[1] == parts@[1]@);
            }
            i = i + 1;
        }
        assert(ls.skip(1).take(lines.len() - 1) =~= ls.skip(1));
        devices
    }

    /// The first line of `adb --version` output, trimmed, or "ADB".
    pub fn adb_version_line(stdout: &str) -> (r: String)
        ensures
            r@ == adb_version_text(stdout@),
    {
        let lines = lines_of(stdout);
        if lines.len() == 0 {
            trim_text("ADB")
        } else {
            assert(views(lines@)[0] == lines@[0]@);
            trim_text(lines[0].as_str())
        }
    }

    /// The status of the bridge from what probing found: the output of
    /// `adb --version` when it ran successfully, and the devices it lists.
    /// Without a working `adb` no emulator is reported.
    pub fn status_from(version_stdout: Option<&str>, running: Vec<String>) -> (r: AndroidStatus)
        ensures
            r.adb_available == version_stdout is Some,
            version_stdout matches Some(out) ==> r.adb_version matches Some(v) && v@ == adb_version_text(
                out@,
            ),
            version_stdout is None ==> r.adb_version is None,
            views(r.running_emulators@) == if version_stdout is Some {
                views(running@)
            } else {
                Seq::<Seq<char>>::empty()
            },
    {
        match version_stdout {
            Some(out) => AndroidStatus {
                adb_available: true,
                adb_version: Some(AndroidBridge::adb_version_line(out)),
                running_emulators: running,
            },
            None => {
                let none: Vec<String> = Vec::new();
                assert(views(none@) =~= Seq::<Seq<char>>::empty());
                AndroidStatus { adb_available: false, adb_version: None, running_emulators: none }
            },
        }
    }
}

/// The arguments of `adb` that send a geo fix to a device: longitude first,
/// then latitude, then the altitude when there is one.
pub open spec fn geo_fix_args_text(target: Seq<char>, lon: Seq<char>, lat: Seq<char>, alt: Option<
    Seq<char>,
>) -> Seq<Seq<char>> {
    seq!["-s"@, target, "emu"@, "geo"@, "fix"@, lon, lat] + match alt {
        Some(a) => seq![a],
        None => Seq::<Seq<char>>::empty(),
    }
}

/// The arguments of `adb` for the `cmd location set-location` fallback:
/// latitude first, then longitude.
pub open spec fn set_location_args_text(target: Seq<char>, lat: Seq<char>, lon: Seq<char>) -> Seq<
    Seq<char>,
> {
    seq!["-s"@, target, "shell"@, "cmd"@, "location"@, "set-location"@, lat, lon]
}

/// The devices that a geo fix goes to: the requested one, or else those listed.
pub open spec fn geo_fix_targets(serial: Option<Seq<char>>, listed: Seq<Seq<char>>) -> Seq<Seq<char>> {
    match serial {
        Some(s) => seq![s],
        None => listed,
    }
}

/// What the bridge asks for next while sending geo fixes.
pub enum GeoFixStep {
    /// Run `adb` with these arguments and report the outcome.
    Run(Vec<String>),
    /// Run the fallback `adb` command with these arguments; its outcome is ignored.
    Fallback(Vec<String>),
    /// Finished: the devices that were sent the fix, or why it stopped.
    Done(Result<Vec<String>, String>),
}

/// The mathematical content of a [`GeoFixStep`].
pub enum GeoFixStepView {
    Run(Seq<Seq<char>>),
    Fallback(Seq<Seq<char>>),
    Done(Result<Seq<Seq<char>>, Seq<char>>),
}

/// The view of a step.
pub open spec fn step_view(s: GeoFixStep) -> GeoFixStepView {
    match s {
        GeoFixStep::Run(a) => GeoFixStepView::Run(views(a@)),
        GeoFixStep::Fallback(a) => GeoFixStepView::Fallback(views(a@)),
        GeoFixStep::Done(Ok(d)) => GeoFixStepView::Done(Ok(views(d@))),
        GeoFixStep::Done(Err(e)) => GeoFixStepView::Done(Err(e@)),
    }
}

/// The state of sending a geo fix to a list of devices.
pub struct GeoFixRun {
    targets: Vec<String>,
    next: usize,
    awaiting_fallback: bool,
    error: Option<String>,
    lon: String,
    lat: String,
    alt: Option<String>,
}

/// The mathematical content of a [`GeoFixRun`].
pub struct GeoFixView {
    pub targets: Seq<Seq<char>>,
    pub next: nat,
    pub awaiting_fallback: bool,
    pub error: Option<Seq<char>>,
    pub lon: Seq<char>,
    pub lat: Seq<char>,
    pub alt: Option<Seq<char>>,
}

/// The step that a run in state `v` asks for when it has nothing pending.
pub open spec fn pending_step(v: GeoFixView) -> GeoFixStepView {
    match v.error {
        Some(e) => GeoFixStepView::Done(Err(e)),
        None => if v.next < v.targets.len() {
            GeoFixStepView::Run(geo_fix_args_text(v.targets[v.next as int], v.lon, v.lat, v.alt))
        } else {
            GeoFixStepView::Done(Ok(v.targets))
        },
    }
}

/// The state after the current device is counted as sent.
pub open spec fn advanced(v: GeoFixView) -> GeoFixView {
    GeoFixView { next: v.next + 1, awaiting_fallback: false, ..v }
}

/// The message for an `adb` that could not be run.
pub open spec fn adb_failure_text(e: Seq<char>) -> Seq<char> {
    "Failed to execute adb command: "@ + e
}

/// How a run moves on when the command it asked for ends with `outcome`:
/// after a fallback, or after a successful fix, the device counts as sent;
/// a failed fix asks for the fallback; an `adb` that cannot be run stops the run.
pub open spec fn geo_fix_transition(v: GeoFixView, outcome: CommandOutcome) -> (
    GeoFixView,
    GeoFixStepView,
) {
    if v.error is Some || v.next >= v.targets.len() {
        (v, pending_step(v))
    } else if v.awaiting_fallback {
        (advanced(v), pending_step(advanced(v)))
    } else {
        match outcome {
            CommandOutcome::Succeeded => (advanced(v), pending_step(advanced(v))),
            CommandOutcome::Failed => (
                GeoFixView { awaiting_fallback: true, ..v },
                GeoFixStepView::Fallback(
                    set_location_args_text(v.targets[v.next as int], v.lat, v.lon),
                ),
            ),
            CommandOutcome::CouldNotRun(e) => {
                let failed = GeoFixView { error: Some(adb_failure_text(e@)), ..v };
                (failed, pending_step(failed))
            },
        }
    }
}

impl View for GeoFixRun {
    type V = GeoFixView;

    closed spec fn view(&self) -> GeoFixView {
        GeoFixView {
            targets: views(self.targets@),
            next: self.next as nat,
            awaiting_fallback: self.awaiting_fallback,
            error: crate::config::opt_text(self.error),
            lon: self.lon@,
            lat: self.lat@,
            alt: crate::config::opt_text(self.alt),
        }
    }
}

impl AndroidBridge {
    /// The `adb` arguments that send a geo fix to a device.
    pub fn geo_fix_args(target: &str, lon: &str, lat: &str, alt: Option<&str>) -> (r: Vec<String>)
        ensures
            views(r@) == geo_fix_args_text(
                target@,
                lon@,
                lat@,
                match alt {
                    Some(a) => Some(a@),
                    None => None,
                },
            ),
    {
        let mut r: Vec<String> = Vec::new();
        r.push(owned("-s"));
        r.push(owned(target));
        r.push(owned("emu"));
        r.push(owned("geo"));
        r.push(owned("fix"));
        r.push(owned(lon));
        r.push(owned(lat));
        if let Some(a) = alt {
            r.push(owned(a));
        }
        assert(views(r@) =~= geo_fix_args_text(
            target@,
            lon@,
            lat@,
            match alt {
                Some(a) => Some(a@),
                None => None,
            },
        ));
        r
    }

    /// The `adb` arguments of the `cmd location set-location` fallback.
    pub fn set_location_args(target: &str, lat: &str, lon: &str) -> (r: Vec<String>)
        ensures
            views(r@) == set_location_args_text(target@, lat@, lon@),
    {
        let mut r: Vec<String> = Vec::new();
        r.push(owned("-s"));
        r.push(owned(target));
        r.push(owned("shell"));
        r.push(owned("cmd"));
        r.push(owned("location"));
        r.push(owned("set-location"));
        r.push(owned(lat));
        r.push(owned(lon));
        assert(views(r@) =~= set_location_args_text(target@, lat@, lon@));
        r
    }
}

/// A copy of a list of strings.
pub fn copy_strings(v: &Vec<String>) -> (r: Vec<String>)
    ensures
        views(r@) == views(v@),
{
    let mut r: Vec<String> = Vec::new();
    let mut i: usize = 0;
    while i < v.len()
        invariant
            i <= v.len(),
            views(r@) == views(v@).take(i as int),
        decreases v.len() - i,
    {
        let ghost before = views(r@);
        let c = v[i].clone();
        assert(c@ == v@[i as int]@);
        r.push(c);
        assert(views(r@) =~= before.push(c@));
        assert(views(v@).take(i + 1) =~= views(v@).take(i as int).push(v@[i as int]@));
        i = i + 1;
    }
    assert(views(v@).take(v.len() as int) =~= views(v@));
    r
}

impl GeoFixRun {
    #[verifier::type_invariant]
    closed spec fn consistent(self) -> bool {
        &&& self.next <= self.targets.len()
        &&& self.awaiting_fallback ==> self.next < self.targets.len() && self.error is None
    }

    /// Begins sending a geo fix with the formatted coordinates: to the
    /// requested device, or else to every listed device; returns the first step.
    pub fn start(
        serial: Option<&str>,
        listed: Vec<String>,
        lon: String,
        lat: String,
        alt: Option<String>,
    ) -> (r: (GeoFixRun, GeoFixStep))
        ensures
            r.0@ == (GeoFixView {
                targets: geo_fix_targets(
                    match serial {
                        Some(s) => Some(s@),
                        None => None,
                    },
                    views(listed@),
                ),
                next: 0,
                awaiting_fallback: false,
                error: None,
                lon: lon@,
                lat: lat@,
                alt: crate::config::opt_text(alt),
            }),
            step_view(r.1) == pending_step(r.0@),
    {
        let targets = match serial {
            Some(s) => {
                let mut t: Vec<String> = Vec::new();
                t.push(owned(s));
                assert(views(t@) =~= seq![s@]);
                t
            },
            None => listed,
        };
        let run = GeoFixRun {
            targets,
            next: 0,
            awaiting_fallback: false,
            error: None,
            lon,
            lat,
            alt,
        };
        let step = run.pending();
        (run, step)
    }

    fn pending(&self) -> (r: GeoFixStep)
        requires
            !self.awaiting_fallback,
        ensures
            step_view(r) == pending_step(self@),
    {
        proof {
            use_type_invariant(self);
        }
        if let Some(e) = &self.error {
            return GeoFixStep::Done(Err(e.clone()));
        }
        if self.next < self.targets.len() {
            let alt = match &self.alt {
                Some(a) => Some(a.as_str()),
                None => None,
            };
            assert(views(self.targets@)[self.next as int] == self.targets@[self.next as int]@);
            GeoFixStep::Run(
                AndroidBridge::geo_fix_args(
                    self.targets[self.next].as_str(),
                    self.lon.as_str(),
                    self.lat.as_str(),
                    alt,
                ),
            )
        } else {
            GeoFixStep::Done(Ok(copy_strings(&self.targets)))
        }
    }

    /// Moves on after the command that the last step asked for ended with `outcome`.
    pub fn advance(&mut self, outcome: CommandOutcome) -> (r: GeoFixStep)
        ensures
            (final(self)@, step_view(r)) == geo_fix_transition(old(self)@, outcome),
    {
        proof {
            use_type_invariant(&*self);
        }
        if self.error.is_some() || self.next >= self.targets.len() {
            return self.pending();
        }
        if self.awaiting_fallback {
            self.count_sent();
            return self.pending();
        }
        match outcome {
            CommandOutcome::Succeeded => {
                self.count_sent();
                self.pending()
            },
            CommandOutcome::Failed => {
                assert(views(self.targets@)[self.next as int] == self.targets@[self.next as int]@);
                let args = AndroidBridge::set_location_args(
                    self.targets[self.next].as_str(),
                    self.lat.as_str(),
                    self.lon.as_str(),
                );
                self.awaiting_fallback = true;
                GeoFixStep::Fallback(args)
            },
            CommandOutcome::CouldNotRun(e) => {
                self.error = Some(crate::text::concat("Failed to execute adb command: ", e.as_str()));
                self.pending()
            },
        }
    }

    fn count_sent(&mut self)
        requires
            old(self).next < old(self)@.targets.len(),
            old(self).error is None,
        ensures
            final(self)@ == advanced(old(self)@),
            !final(self).awaiting_fallback,
    {
        proof {
            use_type_invariant(&*self);
        }
        self.awaiting_fallback = false;
        self.next = self.next + 1;
    }
}

/// Whether a character is one that XML text must not hold literally.
pub open spec fn is_markup(c: char) -> bool {
    c == '<' || c == '>' || c == '"' || c == '\''
}

/// Escaped text holds no `<`, `>`, `"` or `'`.
pub proof fn law_escaped_text_has_no_markup(s: Seq<char>)
    ensures
        forall|i: int| 0 <= i < xml_escaped(s).len() ==> !is_markup(#[trigger] xml_escaped(s)[i]),
    decreases s.len(),
{
    reveal_strlit("&amp;");
    reveal_strlit("&lt;");
    reveal_strlit("&gt;");
    reveal_strlit("&quot;");
    reveal_strlit("&apos;");
    if s.len() > 0 {
        law_escaped_text_has_no_markup(s.drop_last());
        let prev = xml_escaped(s.drop_last());
        let e = escape_char(s.last());
        assert forall|i: int| 0 <= i < xml_escaped(s).len() implies !is_markup(
            #[trigger] xml_escaped(s)[i],
        ) by {
            if i >= prev.len() {
                assert(xml_escaped(s)[i] == e[i - prev.len()]);
            } else {
                assert(xml_escaped(s)[i] == prev[i]);
            }
        }
    }
}

/// Text without markup characters or `&` is left as it is.
pub proof fn law_plain_text_unescaped(s: Seq<char>)
    requires
        forall|i: int| 0 <= i < s.len() ==> !is_markup(#[trigger] s[i]) && s[i] != '&',
    ensures
        xml_escaped(s) == s,
    decreases s.len(),
{
    if s.len() > 0 {
        law_plain_text_unescaped(s.drop_last());
        assert(s.drop_last().push(s.last()) =~= s);
        assert(!is_markup(s[s.len() - 1]) && s[s.len() - 1] != '&');
    }
}

/// The state after `n` steps in which every command runs successfully.
pub open spec fn after_successes(v: GeoFixView, n: nat) -> GeoFixView
    decreases n,
{
    if n == 0 {
        v
    } else {
        geo_fix_transition(after_successes(v, (n - 1) as nat), CommandOutcome::Succeeded).0
    }
}

/// When every geo fix runs successfully, the run asks for one fix per device,
/// in order, and ends reporting every device as sent.
pub proof fn law_geo_fix_reaches_every_device(v: GeoFixView)
    requires
        v.error is None,
        !v.awaiting_fallback,
        v.next <= v.targets.len(),
    ensures
        after_successes(v, (v.targets.len() - v.next) as nat).next == v.targets.len(),
        pending_step(after_successes(v, (v.targets.len() - v.next) as nat)) == GeoFixStepView::Done(
            Ok(v.targets),
        ),
        forall|k: nat|
            v.next + k < v.targets.len() ==> pending_step(#[trigger] after_successes(v, k))
                == GeoFixStepView::Run(
                geo_fix_args_text(v.targets[(v.next + k) as int], v.lon, v.lat, v.alt),
            ),
{
    lemma_after_successes(v, (v.targets.len() - v.next) as nat);
    assert forall|k: nat| v.next + k < v.targets.len() implies pending_step(
        #[trigger] after_successes(v, k),
    ) == GeoFixStepView::Run(geo_fix_args_text(v.targets[(v.next + k) as int], v.lon, v.lat, v.alt)) by {
        lemma_after_successes(v, k);
    }
}

/// After `n` successful steps from a state without error, `n` more targets are done.
proof fn lemma_after_successes(v: GeoFixView, n: nat)
    requires
        v.error is None,
        !v.awaiting_fallback,
        v.next + n <= v.targets.len(),
    ensures
        after_successes(v, n) == (GeoFixView { next: v.next + n, ..v }),
    decreases n,
{
    if n > 0 {
        lemma_after_successes(v, (n - 1) as nat);
    } else {
        assert(after_successes(v, n) == (GeoFixView { next: v.next + n, ..v }));
    }
}

/// A fix that fails asks for the fallback; once the fallback has run,
/// whatever its outcome, the device counts as sent.
pub proof fn law_failed_fix_falls_back(v: GeoFixView, fallback_outcome: CommandOutcome)
    requires
        v.error is None,
        !v.awaiting_fallback,
        v.next < v.targets.len(),
    ensures
        geo_fix_transition(v, CommandOutcome::Failed).1 == GeoFixStepView::Fallback(
            set_location_args_text(v.targets[v.next as int], v.lat, v.lon),
        ),
        geo_fix_transition(geo_fix_transition(v, CommandOutcome::Failed).0, fallback_outcome).0
            == advanced(v),
{
}

/// Whether a line of `adb devices` output reports `serial` as attached: its
/// second word is `device` or `emulator` and its first word is `serial`.
pub open spec fn reports_attached(line: Seq<char>, serial: Seq<char>) -> bool {
    let w = words(line);
    w.len() >= 2 && (w[1] == "device"@ || w[1] == "emulator"@) && w[0] == serial
}

/// Of a list of lines, the serials that `devices_in` reports are exactly the
/// first words of the lines that report an attached device.
proof fn lemma_devices_from_lines(lines: Seq<Seq<char>>)
    ensures
        forall|i: int|
            #![trigger devices_in(lines)[i]]
            0 <= i < devices_in(lines).len() ==> exists|j: int|
                0 <= j < lines.len() && reports_attached(#[trigger] lines[j], devices_in(lines)[i]),
        forall|j: int|
            0 <= j < lines.len() && reports_attached(#[trigger] lines[j], words(lines[j])[0])
                ==> devices_in(lines).contains(words(lines[j])[0]),
    decreases lines.len(),
{
    if lines.len() > 0 {
        let init = lines.drop_last();
        lemma_devices_from_lines(init);
        let prev = devices_in(init);
        let last = lines.last();
        assert forall|j: int| 0 <= j < init.len() implies #[trigger] init[j] == lines[j] by {}
        assert forall|i: int|
            #![trigger devices_in(lines)[i]]
            0 <= i < devices_in(lines).len() implies exists|j: int|
                0 <= j < lines.len() && reports_attached(#[trigger] lines[j], devices_in(lines)[i]) by {
            if i < prev.len() {
                let j = choose|j: int|
                    0 <= j < init.len() && reports_attached(#[trigger] init[j], prev[i]);
                assert(init[j] == lines[j]);
                assert(devices_in(lines)[i] == prev[i]);
                assert(reports_attached(lines[j], devices_in(lines)[i]));
            } else {
                assert(lines[lines.len() - 1] == last);
                assert(reports_attached(lines[lines.len() - 1], devices_in(lines)[i]));
            }
        }
        assert forall|j: int|
            0 <= j < lines.len() && reports_attached(#[trigger] lines[j], words(lines[j])[0])
                implies devices_in(lines).contains(words(lines[j])[0]) by {
            if j < init.len() {
                assert(init[j] == lines[j]);
                assert(reports_attached(init[j], words(init[j])[0]));
                let k = choose|k: int| 0 <= k < prev.len() && prev[k] == words(init[j])[0];
                match device_of_line(last) {
                    Some(d) => {
                        assert(devices_in(lines)[k] == prev[k]);
                    },
                    None => {},
                }
            } else {
                assert(lines[j] == last);
                assert(devices_in(lines) == prev.push(words(last)[0]));
                assert(devices_in(lines)[prev.len() as int] == words(last)[0]);
            }
        }
    } else {
        assert(devices_in(lines).len() == 0);
    }
}

/// The devices listed from the output of `adb devices` are exactly the first
/// words of the lines after the header whose second word is `device` or
/// `emulator`: a device in any other state (offline, unauthorized, no
/// permissions) is never listed, and every attached device or emulator is.
pub proof fn law_listed_devices_are_attached(stdout: Seq<char>)
    ensures
        forall|i: int|
            #![trigger adb_devices(stdout)[i]]
            0 <= i < adb_devices(stdout).len() ==> exists|j: int|
                1 <= j < text_lines(stdout).len() && reports_attached(
                    #[trigger] text_lines(stdout)[j],
                    adb_devices(stdout)[i],
                ),
        forall|j: int|
            1 <= j < text_lines(stdout).len() && reports_attached(
                #[trigger] text_lines(stdout)[j],
                words(text_lines(stdout)[j])[0],
            ) ==> adb_devices(stdout).contains(words(text_lines(stdout)[j])[0]),
{
    let ls = text_lines(stdout);
    if ls.len() > 0 {
        let rest = ls.skip(1);
        lemma_devices_from_lines(rest);
        assert forall|j: int| 0 <= j < rest.len() implies #[trigger] rest[j] == ls[j + 1] by {}
        assert forall|i: int|
            #![trigger adb_devices(stdout)[i]]
            0 <= i < adb_devices(stdout).len() implies exists|j: int|
                1 <= j < ls.len() && reports_attached(#[trigger] ls[j], adb_devices(stdout)[i]) by {
            let j = choose|j: int|
                0 <= j < rest.len() && reports_attached(#[trigger] rest[j], devices_in(rest)[i]);
            assert(rest[j] == ls[j + 1]);
        }
        assert forall|j: int|
            1 <= j < ls.len() && reports_attached(#[trigger] ls[j], words(ls[j])[0]) implies adb_devices(
            stdout,
        ).contains(words(ls[j])[0]) by {
            assert(rest[j - 1] == ls[j]);
        }
    }
}

} // verus!
