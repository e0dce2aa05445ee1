//! Build selections, and the table that says which artifact asks for which.

use crate::artifact::ArtifactSet;
use crate::identifier::ArtifactIdentifier;
use vstd::prelude::*;

verus! {

/// The platform on which the resolution runs and the build will run.
#[derive(Clone, Copy, Debug, PartialEq, Eq, Structural)]
pub enum HostPlatform {
    Windows,
    Linux,
    Other,
}

/// One component that the build can be asked to produce.
#[derive(Clone, Copy, Debug, PartialEq, Eq, Structural)]
pub enum Toggle {
    Openhcl,
    Openvmm,
    PipetteWindows,
    PipetteLinux,
    PrepSteps,
    GuestTestUefi,
    Tmks,
    TmkVmmWindows,
    TmkVmmLinux,
    Vmgstool,
}

/// Which components to build: one switch for each [`Toggle`].
#[derive(Clone, Copy, Debug, PartialEq, Eq, Structural)]
pub struct BuildSelections {
    pub openhcl: bool,
    pub openvmm: bool,
    pub pipette_windows: bool,
    pub pipette_linux: bool,
    pub prep_steps: bool,
    pub guest_test_uefi: bool,
    pub tmks: bool,
    pub tmk_vmm_windows: bool,
    pub tmk_vmm_linux: bool,
    pub vmgstool: bool,
}

impl BuildSelections {
    /// The selections with every switch off.
    pub open spec fn none() -> BuildSelections {
        BuildSelections {
            openhcl: false,
            openvmm: false,
            pipette_windows: false,
            pipette_linux: false,
            prep_steps: false,
            guest_test_uefi: false,
            tmks: false,
            tmk_vmm_windows: false,
            tmk_vmm_linux: false,
            vmgstool: false,
        }
    }

    /// Whether the switch `t` is on.
    pub open spec fn has(self, t: Toggle) -> bool {
        match t {
            Toggle::Openhcl => self.openhcl,
            Toggle::Openvmm => self.openvmm,
            Toggle::PipetteWindows => self.pipette_windows,
            Toggle::PipetteLinux => self.pipette_linux,
            Toggle::PrepSteps => self.prep_steps,
            Toggle::GuestTestUefi => self.guest_test_uefi,
            Toggle::Tmks => self.tmks,
            Toggle::TmkVmmWindows => self.tmk_vmm_windows,
            Toggle::TmkVmmLinux => self.tmk_vmm_linux,
            Toggle::Vmgstool => self.vmgstool,
        }
    }

    /// These selections with the switch `t` on.
    pub open spec fn with(self, t: Toggle) -> BuildSelections {
        match t {
            Toggle::Openhcl => BuildSelections { openhcl: true, ..self },
            Toggle::Openvmm => BuildSelections { openvmm: true, ..self },
            Toggle::PipetteWindows => BuildSelections { pipette_windows: true, ..self },
            Toggle::PipetteLinux => BuildSelections { pipette_linux: true, ..self },
            Toggle::PrepSteps => BuildSelections { prep_steps: true, ..self },
            Toggle::GuestTestUefi => BuildSelections { guest_test_uefi: true, ..self },
            Toggle::Tmks => BuildSelections { tmks: true, ..self },
            Toggle::TmkVmmWindows => BuildSelections { tmk_vmm_windows: true, ..self },
            Toggle::TmkVmmLinux => BuildSelections { tmk_vmm_linux: true, ..self },
            Toggle::Vmgstool => BuildSelections { vmgstool: true, ..self },
        }
    }

    /// Whether every switch that is on in `other` is on here.
    pub open spec fn covers(self, other: BuildSelections) -> bool {
        forall|t: Toggle| other.has(t) ==> self.has(t)
    }

    /// Selections with the same switches on are the same.
    pub proof fn lemma_same_switches(self, other: BuildSelections)
        requires
            forall|t: Toggle| self.has(t) == other.has(t),
        ensures
            self == other,
    {
        assert(self.has(Toggle::Openhcl) == other.has(Toggle::Openhcl));
        assert(self.has(Toggle::Openvmm) == other.has(Toggle::Openvmm));
        assert(self.has(Toggle::PipetteWindows) == other.has(Toggle::PipetteWindows));
        assert(self.has(Toggle::PipetteLinux) == other.has(Toggle::PipetteLinux));
        assert(self.has(Toggle::PrepSteps) == other.has(Toggle::PrepSteps));
        assert(self.has(Toggle::GuestTestUefi) == other.has(Toggle::GuestTestUefi));
        assert(self.has(Toggle::Tmks) == other.has(Toggle::Tmks));
        assert(self.has(Toggle::TmkVmmWindows) == other.has(Toggle::TmkVmmWindows));
        assert(self.has(Toggle::TmkVmmLinux) == other.has(Toggle::TmkVmmLinux));
        assert(self.has(Toggle::Vmgstool) == other.has(Toggle::Vmgstool));
    }

    /// The selections with every switch off.
    pub fn new() -> (r: BuildSelections)
        ensures
            r == BuildSelections::none(),
    {
        BuildSelections {
            openhcl: false,
            openvmm: false,
            pipette_windows: false,
            pipette_linux: false,
            prep_steps: false,
            guest_test_uefi: false,
            tmks: false,
            tmk_vmm_windows: false,
            tmk_vmm_linux: false,
            vmgstool: false,
        }
    }

    /// Whether the switch `t` is on.
    pub fn is_set(&self, t: Toggle) -> (r: bool)
        ensures
            r == self.has(t),
    {
        match t {
            Toggle::Openhcl => self.openhcl,
            Toggle::Openvmm => self.openvmm,
            Toggle::PipetteWindows => self.pipette_windows,
            Toggle::PipetteLinux => self.pipette_linux,
            Toggle::PrepSteps => self.prep_steps,
            Toggle::GuestTestUefi => self.guest_test_uefi,
            Toggle::Tmks => self.tmks,
            Toggle::TmkVmmWindows => self.tmk_vmm_windows,
            Toggle::TmkVmmLinux => self.tmk_vmm_linux,
            Toggle::Vmgstool => self.vmgstool,
        }
    }

    /// Turns the switch `t` on. No switch is turned off.
    pub fn set(&mut self, t: Toggle)
        ensures
            *final(self) == old(self).with(t),
            final(self).covers(*old(self)),
    {
        match t {
            Toggle::Openhcl => self.openhcl = true,
            Toggle::Openvmm => self.openvmm = true,
            Toggle::PipetteWindows => self.pipette_windows = true,
            Toggle::PipetteLinux => self.pipette_linux = true,
            Toggle::PrepSteps => self.prep_steps = true,
            Toggle::GuestTestUefi => self.guest_test_uefi = true,
            Toggle::Tmks => self.tmks = true,
            Toggle::TmkVmmWindows => self.tmk_vmm_windows = true,
            Toggle::TmkVmmLinux => self.tmk_vmm_linux = true,
            Toggle::Vmgstool => self.vmgstool = true,
        }
    }
}

impl Default for BuildSelections {
    fn default() -> (r: BuildSelections)
        ensures
            r == BuildSelections::none(),
    {
        BuildSelections::new()
    }
}

/// A group of artifact identifiers that ask for the same components.
#[derive(Clone, Copy, Debug, PartialEq, Eq, Structural)]
pub enum ArtifactClass {
    /// The guest agent for Windows guests.
    PipetteWindows,
    /// The guest agent for Linux guests.
    PipetteLinux,
    /// The virtual machine monitor, built for the host.
    Openvmm,
    /// A paravisor firmware image.
    Openhcl,
    /// The UEFI guest test disk.
    GuestTestUefi,
    /// A test disk that is prepared before use.
    PreppedTestDisk,
    /// The test-kernel runner, built for the host.
    TmkVmmNative,
    /// The test-kernel runner, built for Linux.
    TmkVmmLinux,
    /// A test kernel.
    SimpleTmk,
    /// The tool for guest state files, built for the host.
    Vmgstool,
}

/// Whether an artifact of `class` asks for the component `t` on `host`.
///
/// Only the host's own test-kernel runner depends on the host: it asks for the
/// Windows runner on Windows and for the Linux runner on Linux, and for the
/// test kernels on every host.
pub open spec fn class_enables(class: ArtifactClass, host: HostPlatform, t: Toggle) -> bool {
    match class {
        ArtifactClass::PipetteWindows => t == Toggle::PipetteWindows,
        ArtifactClass::PipetteLinux => t == Toggle::PipetteLinux,
        ArtifactClass::Openvmm => t == Toggle::Openvmm,
        ArtifactClass::Openhcl => t == Toggle::Openhcl,
        ArtifactClass::GuestTestUefi => t == Toggle::GuestTestUefi,
        ArtifactClass::PreppedTestDisk => t == Toggle::PrepSteps,
        ArtifactClass::TmkVmmNative => t == Toggle::Tmks || (host == HostPlatform::Windows && t
            == Toggle::TmkVmmWindows) || (host == HostPlatform::Linux && t
            == Toggle::TmkVmmLinux),
        ArtifactClass::TmkVmmLinux => t == Toggle::Tmks || t == Toggle::TmkVmmLinux,
        ArtifactClass::SimpleTmk => t == Toggle::Tmks,
        ArtifactClass::Vmgstool => t == Toggle::Vmgstool,
    }
}

/// The classification table: each identifier that asks for a component, with
/// its class. An identifier that the table does not list asks for nothing.
pub open spec fn classification() -> Seq<(Seq<char>, ArtifactClass)> {
    seq![
        ("PIPETTE_WINDOWS_X64"@, ArtifactClass::PipetteWindows),
        ("PIPETTE_WINDOWS_AARCH64"@, ArtifactClass::PipetteWindows),
        ("PIPETTE_LINUX_X64"@, ArtifactClass::PipetteLinux),
        ("PIPETTE_LINUX_AARCH64"@, ArtifactClass::PipetteLinux),
        ("OPENVMM_NATIVE"@, ArtifactClass::Openvmm),
        ("LATEST_STANDARD_X64"@, ArtifactClass::Openhcl),
        ("LATEST_STANDARD_DEV_KERNEL_X64"@, ArtifactClass::Openhcl),
        ("LATEST_CVM_X64"@, ArtifactClass::Openhcl),
        ("LATEST_LINUX_DIRECT_TEST_X64"@, ArtifactClass::Openhcl),
        ("LATEST_STANDARD_AARCH64"@, ArtifactClass::Openhcl),
        ("LATEST_STANDARD_DEV_KERNEL_AARCH64"@, ArtifactClass::Openhcl),
        ("RELEASE_25_05_STANDARD_X64"@, ArtifactClass::Openhcl),
        ("RELEASE_25_05_LINUX_DIRECT_X64"@, ArtifactClass::Openhcl),
        ("RELEASE_25_05_STANDARD_AARCH64"@, ArtifactClass::Openhcl),
        ("GUEST_TEST_UEFI_X64"@, ArtifactClass::GuestTestUefi),
        ("GUEST_TEST_UEFI_AARCH64"@, ArtifactClass::GuestTestUefi),
        ("GEN2_WINDOWS_DATA_CENTER_CORE2025_X64_PREPPED"@, ArtifactClass::PreppedTestDisk),
        ("TMK_VMM_NATIVE"@, ArtifactClass::TmkVmmNative),
        ("TMK_VMM_LINUX_X64_MUSL"@, ArtifactClass::TmkVmmLinux),
        ("TMK_VMM_LINUX_AARCH64_MUSL"@, ArtifactClass::TmkVmmLinux),
        ("SIMPLE_TMK_X64"@, ArtifactClass::SimpleTmk),
        ("SIMPLE_TMK_AARCH64"@, ArtifactClass::SimpleTmk),
        ("VMGSTOOL_NATIVE"@, ArtifactClass::Vmgstool),
    ]
}

/// Whether some entry of `table` for the identifier `id` asks for `t` on
/// `host`.
pub open spec fn table_enables(
    table: Seq<(Seq<char>, ArtifactClass)>,
    id: Seq<char>,
    host: HostPlatform,
    t: Toggle,
) -> bool {
    exists|i: int|
        0 <= i < table.len() && (#[trigger] table[i]).0 == id && class_enables(
            table[i].1,
            host,
            t,
        )
}

/// Whether the identifier `id` asks for the component `t` on `host`.
pub open spec fn enables(id: Seq<char>, host: HostPlatform, t: Toggle) -> bool {
    table_enables(classification(), id, host, t)
}

/// Whether some identifier of `ids` asks for the component `t` on `host`.
pub open spec fn enabled_by(ids: Set<Seq<char>>, host: HostPlatform, t: Toggle) -> bool {
    exists|id: Seq<char>| ids.contains(id) && #[trigger] enables(id, host, t)
}

/// The selections that the identifiers `ids` ask for on `host`: a switch is
/// on exactly when some identifier of `ids` asks for its component.
pub open spec fn selections_for(ids: Set<Seq<char>>, host: HostPlatform) -> BuildSelections {
    BuildSelections {
        openhcl: enabled_by(ids, host, Toggle::Openhcl),
        openvmm: enabled_by(ids, host, Toggle::Openvmm),
        pipette_windows: enabled_by(ids, host, Toggle::PipetteWindows),
        pipette_linux: enabled_by(ids, host, Toggle::PipetteLinux),
        prep_steps: enabled_by(ids, host, Toggle::PrepSteps),
        guest_test_uefi: enabled_by(ids, host, Toggle::GuestTestUefi),
        tmks: enabled_by(ids, host, Toggle::Tmks),
        tmk_vmm_windows: enabled_by(ids, host, Toggle::TmkVmmWindows),
        tmk_vmm_linux: enabled_by(ids, host, Toggle::TmkVmmLinux),
        vmgstool: enabled_by(ids, host, Toggle::Vmgstool),
    }
}

/// A switch of the selections for `ids` is on exactly when `ids` asks for it.
pub proof fn lemma_selections_switch(ids: Set<Seq<char>>, host: HostPlatform, t: Toggle)
    ensures
        selections_for(ids, host).has(t) == enabled_by(ids, host, t),
{
}

/// More identifiers never turn a switch off: the selections for a larger set
/// cover those for a smaller one.
pub proof fn lemma_more_artifacts(ids: Set<Seq<char>>, more: Set<Seq<char>>, host: HostPlatform)
    requires
        ids.subset_of(more),
    ensures
        selections_for(more, host).covers(selections_for(ids, host)),
{
    assert forall|t: Toggle| selections_for(ids, host).has(t) implies selections_for(
        more,
        host,
    ).has(t) by {
        lemma_selections_switch(ids, host, t);
        lemma_selections_switch(more, host, t);
        let id = choose|id: Seq<char>| ids.contains(id) && #[trigger] enables(id, host, t);
        assert(more.contains(id) && enables(id, host, t));
    }
}

/// Adding an identifier to the set never turns a switch off.
pub proof fn lemma_added_artifact(ids: Set<Seq<char>>, id: Seq<char>, host: HostPlatform)
    ensures
        selections_for(ids.insert(id), host).covers(selections_for(ids, host)),
{
    lemma_more_artifacts(ids, ids.insert(id), host);
}

/// No identifier, no component.
pub proof fn lemma_no_artifacts(host: HostPlatform)
    ensures
        selections_for(Set::empty(), host) == BuildSelections::none(),
{
}

/// The host's own test-kernel runner asks for the test kernels on every host,
/// for the Windows runner on a Windows host, and for the Linux runner on a
/// Linux host.
pub proof fn lemma_native_runner(ids: Set<Seq<char>>, host: HostPlatform)
    requires
        ids.contains("TMK_VMM_NATIVE"@),
    ensures
        selections_for(ids, host).tmks,
        host == HostPlatform::Windows ==> selections_for(ids, host).tmk_vmm_windows,
        host == HostPlatform::Linux ==> selections_for(ids, host).tmk_vmm_linux,
{
    let id = "TMK_VMM_NATIVE"@;
    assert(classification()[17] == (id, ArtifactClass::TmkVmmNative));
    assert(enables(id, host, Toggle::Tmks));
    if host == HostPlatform::Windows {
        assert(enables(id, host, Toggle::TmkVmmWindows));
    }
    if host == HostPlatform::Linux {
        assert(enables(id, host, Toggle::TmkVmmLinux));
    }
}

/// The table lists each identifier once.
pub proof fn lemma_listed_once()
    ensures
        forall|i: int, j: int|
            0 <= i < j < classification().len() ==> (#[trigger] classification()[i]).0 != (
            #[trigger] classification()[j]).0,
{
    reveal_strlit("PIPETTE_WINDOWS_X64");
    reveal_strlit("PIPETTE_WINDOWS_AARCH64");
    reveal_strlit("PIPETTE_LINUX_X64");
    reveal_strlit("PIPETTE_LINUX_AARCH64");
    reveal_strlit("OPENVMM_NATIVE");
    reveal_strlit("LATEST_STANDARD_X64");
    reveal_strlit("LATEST_STANDARD_DEV_KERNEL_X64");
    reveal_strlit("LATEST_CVM_X64");
    reveal_strlit("LATEST_LINUX_DIRECT_TEST_X64");
    reveal_strlit("LATEST_STANDARD_AARCH64");
    reveal_strlit("LATEST_STANDARD_DEV_KERNEL_AARCH64");
    reveal_strlit("RELEASE_25_05_STANDARD_X64");
    reveal_strlit("RELEASE_25_05_LINUX_DIRECT_X64");
    reveal_strlit("RELEASE_25_05_STANDARD_AARCH64");
    reveal_strlit("GUEST_TEST_UEFI_X64");
    reveal_strlit("GUEST_TEST_UEFI_AARCH64");
    reveal_strlit("GEN2_WINDOWS_DATA_CENTER_CORE2025_X64_PREPPED");
    reveal_strlit("TMK_VMM_NATIVE");
    reveal_strlit("TMK_VMM_LINUX_X64_MUSL");
    reveal_strlit("TMK_VMM_LINUX_AARCH64_MUSL");
    reveal_strlit("SIMPLE_TMK_X64");
    reveal_strlit("SIMPLE_TMK_AARCH64");
    reveal_strlit("VMGSTOOL_NATIVE");
    let table = classification();
    assert(table.len() == 23);
    assert forall|i: int, j: int| 0 <= i < j < table.len() implies (#[trigger] table[i]).0 != (
    #[trigger] table[j]).0 by {
        let a = table[i].0;
        let b = table[j].0;
        let n = a.len() as int;
        // Identifiers of one length differ at one of these places.
        assert(n != b.len() || a[0] != b[0] || a[4] != b[4] || a[8] != b[8] || a[n - 7] != b[n
            - 7] || a[n - 3] != b[n - 3] || a[n - 1] != b[n - 1]);
    }
}

/// A listed identifier asks for exactly what its class asks for.
pub proof fn lemma_listed(i: int, host: HostPlatform, t: Toggle)
    requires
        0 <= i < classification().len(),
    ensures
        enables(classification()[i].0, host, t) == class_enables(classification()[i].1, host, t),
{
    lemma_listed_once();
    let table = classification();
    if enables(table[i].0, host, t) {
        let k = choose|k: int|
            0 <= k < table.len() && (#[trigger] table[k]).0 == table[i].0 && class_enables(
                table[k].1,
                host,
                t,
            );
        assert(k == i) by {
            if k < i {
                assert(table[k].0 != table[i].0);
            }
            if i < k {
                assert(table[i].0 != table[k].0);
            }
        }
    }
}

/// A single identifier asks for what the table gives it, and for no more.
pub proof fn lemma_single_artifact(id: Seq<char>, host: HostPlatform, t: Toggle)
    ensures
        selections_for(set![id], host).has(t) == enables(id, host, t),
{
    lemma_selections_switch(set![id], host, t);
    if enables(id, host, t) {
        assert(set![id].contains(id));
    }
}

/// Alone, the host's own test-kernel runner asks for the test kernels, for
/// the Windows runner on a Windows host only, for the Linux runner on a Linux
/// host only, and for nothing else.
pub proof fn lemma_native_runner_alone(host: HostPlatform)
    ensures
        selections_for(set!["TMK_VMM_NATIVE"@], host) == (BuildSelections {
            tmks: true,
            tmk_vmm_windows: host == HostPlatform::Windows,
            tmk_vmm_linux: host == HostPlatform::Linux,
            ..BuildSelections::none()
        }),
{
    let id = "TMK_VMM_NATIVE"@;
    let expected = BuildSelections {
        tmks: true,
        tmk_vmm_windows: host == HostPlatform::Windows,
        tmk_vmm_linux: host == HostPlatform::Linux,
        ..BuildSelections::none()
    };
    assert(classification()[17] == (id, ArtifactClass::TmkVmmNative));
    assert forall|t: Toggle| selections_for(set![id], host).has(t) == expected.has(t) by {
        lemma_single_artifact(id, host, t);
        lemma_listed(17, host, t);
    }
    selections_for(set![id], host).lemma_same_switches(expected);
}

/// One entry of the classification table.
#[derive(Clone, Debug)]
pub struct TableEntry {
    pub identifier: String,
    pub class: ArtifactClass,
}

impl View for TableEntry {
    type V = (Seq<char>, ArtifactClass);

    open spec fn view(&self) -> (Seq<char>, ArtifactClass) {
        (self.identifier@, self.class)
    }
}

/// The views of the entries of a table.
pub open spec fn table_views(table: Seq<TableEntry>) -> Seq<(Seq<char>, ArtifactClass)> {
    table.map_values(|e: TableEntry| e@)
}

fn entry(identifier: &str, class: ArtifactClass) -> (r: TableEntry)
    ensures
        r@ == (identifier@, class),
{
    TableEntry { identifier: String::from_str(identifier), class }
}

/// The classification table.
pub fn classification_table() -> (table: Vec<TableEntry>)
    ensures
        table_views(table@) == classification(),
{
    let mut table: Vec<TableEntry> = Vec::new();
    table.push(entry("PIPETTE_WINDOWS_X64", ArtifactClass::PipetteWindows));
    table.push(entry("PIPETTE_WINDOWS_AARCH64", ArtifactClass::PipetteWindows));
    table.push(entry("PIPETTE_LINUX_X64", ArtifactClass::PipetteLinux));
    table.push(entry("PIPETTE_LINUX_AARCH64", ArtifactClass::PipetteLinux));
    table.push(entry("OPENVMM_NATIVE", ArtifactClass::Openvmm));
    table.push(entry("LATEST_STANDARD_X64", ArtifactClass::Openhcl));
    table.push(entry("LATEST_STANDARD_DEV_KERNEL_X64", ArtifactClass::Openhcl));
    table.push(entry("LATEST_CVM_X64", ArtifactClass::Openhcl));
    table.push(entry("LATEST_LINUX_DIRECT_TEST_X64", ArtifactClass::Openhcl));
    table.push(entry("LATEST_STANDARD_AARCH64", ArtifactClass::Openhcl));
    table.push(entry("LATEST_STANDARD_DEV_KERNEL_AARCH64", ArtifactClass::Openhcl));
    table.push(entry("RELEASE_25_05_STANDARD_X64", ArtifactClass::Openhcl));
    table.push(entry("RELEASE_25_05_LINUX_DIRECT_X64", ArtifactClass::Openhcl));
    table.push(entry("RELEASE_25_05_STANDARD_AARCH64", ArtifactClass::Openhcl));
    table.push(entry("GUEST_TEST_UEFI_X64", ArtifactClass::GuestTestUefi));
    table.push(entry("GUEST_TEST_UEFI_AARCH64", ArtifactClass::GuestTestUefi));
    table.push(entry("GEN2_WINDOWS_DATA_CENTER_CORE2025_X64_PREPPED", ArtifactClass::PreppedTestDisk));
    table.push(entry("TMK_VMM_NATIVE", ArtifactClass::TmkVmmNative));
    table.push(entry("TMK_VMM_LINUX_X64_MUSL", ArtifactClass::TmkVmmLinux));
    table.push(entry("TMK_VMM_LINUX_AARCH64_MUSL", ArtifactClass::TmkVmmLinux));
    table.push(entry("SIMPLE_TMK_X64", ArtifactClass::SimpleTmk));
    table.push(entry("SIMPLE_TMK_AARCH64", ArtifactClass::SimpleTmk));
    table.push(entry("VMGSTOOL_NATIVE", ArtifactClass::Vmgstool));
    assert(table_views(table@) =~= classification());
    table
}

impl BuildSelections {
    /// Turns on what an artifact of `class` asks for on `host`.
    pub fn enable_class(&mut self, class: ArtifactClass, host: HostPlatform)
        ensures
            forall|t: Toggle|
                final(self).has(t) == (old(self).has(t) || class_enables(class, host, t)),
    {
        match class {
            ArtifactClass::PipetteWindows => self.pipette_windows = true,
            ArtifactClass::PipetteLinux => self.pipette_linux = true,
            ArtifactClass::Openvmm => self.openvmm = true,
            ArtifactClass::Openhcl => self.openhcl = true,
            ArtifactClass::GuestTestUefi => self.guest_test_uefi = true,
            ArtifactClass::PreppedTestDisk => self.prep_steps = true,
            ArtifactClass::TmkVmmNative => {
                self.tmks = true;
                match host {
                    HostPlatform::Windows => self.tmk_vmm_windows = true,
                    HostPlatform::Linux => self.tmk_vmm_linux = true,
                    HostPlatform::Other => {},
                }
            },
            ArtifactClass::TmkVmmLinux => {
                self.tmks = true;
                self.tmk_vmm_linux = true;
            },
            ArtifactClass::SimpleTmk => self.tmks = true,
            ArtifactClass::Vmgstool => self.vmgstool = true,
        }
    }

    /// Turns on what every entry of `table` for the identifier `id` asks for
    /// on `host`.
    pub fn enable_artifact(
        &mut self,
        table: &Vec<TableEntry>,
        id: &ArtifactIdentifier,
        host: HostPlatform,
    )
        ensures
            forall|t: Toggle|
                final(self).has(t) == (old(self).has(t) || table_enables(
                    table_views(table@),
                    id@,
                    host,
                    t,
                )),
    {
        let wanted = String::from_str(id.name());
        let ghost views = table_views(table@);
        let mut i: usize = 0;
        while i < table.len()
            invariant
                i <= table.len(),
                wanted@ == id@,
                views == table_views(table@),
                forall|t: Toggle|
                    self.has(t) == (old(self).has(t) || exists|k: int|
                        0 <= k < i && (#[trigger] views[k]).0 == id@ && class_enables(
                            views[k].1,
                            host,
                            t,
                        )),
            decreases table.len() - i,
        {
            assert(views[i as int] == table@[i as int]@);
            if table[i].identifier == wanted {
                self.enable_class(table[i].class, host);
            }
            i += 1;
        }
    }
}

/// Whether the classification table lists the identifier `id`.
pub open spec fn is_listed(id: Seq<char>) -> bool {
    exists|i: int| 0 <= i < classification().len() && (#[trigger] classification()[i]).0 == id
}

/// The identifiers of `ids` that the classification table does not list.
/// They ask for nothing; a caller may want to report them.
pub open spec fn unlisted(ids: Set<Seq<char>>) -> Set<Seq<char>> {
    Set::new(|id: Seq<char>| ids.contains(id) && !is_listed(id))
}

/// An identifier that the table does not list asks for nothing.
pub proof fn lemma_unlisted_asks_nothing(id: Seq<char>, host: HostPlatform, t: Toggle)
    requires
        !is_listed(id),
    ensures
        !enables(id, host, t),
{
}

/// Whether `table` lists the identifier `id`.
fn lists(table: &Vec<TableEntry>, id: &ArtifactIdentifier) -> (r: bool)
    ensures
        r == exists|i: int|
            0 <= i < table@.len() && (#[trigger] table_views(table@)[i]).0 == id@,
{
    let wanted = String::from_str(id.name());
    let mut i: usize = 0;
    while i < table.len()
        invariant
            i <= table.len(),
            wanted@ == id@,
            forall|k: int| 0 <= k < i ==> (#[trigger] table_views(table@)[k]).0 != id@,
        decreases table.len() - i,
    {
        assert(table_views(table@)[i as int] == table@[i as int]@);
        if table[i].identifier == wanted {
            return true;
        }
        i += 1;
    }
    false
}

/// The identifiers of `ids` that the classification table does not list.
pub fn unlisted_of(ids: &ArtifactSet) -> (r: ArtifactSet)
    ensures
        r@ == unlisted(ids@),
{
    let table = classification_table();
    let mut r = ArtifactSet::new();
    let n = ids.len();
    let mut i: usize = 0;
    while i < n
        invariant
            i <= n,
            n == ids.order().len(),
            ids.order().to_set() == ids@,
            table_views(table@) == classification(),
            r@ == unlisted(ids.order().take(i as int).to_set()),
        decreases n - i,
    {
        let id = ids.get(i);
        let ghost taken = ids.order().take(i as int);
        proof {
            assert(ids.order().take(i + 1) =~= taken.push(id@));
            taken.lemma_push_to_set_commute(id@);
        }
        if !lists(&table, &id) {
            r.insert(id);
        }
        proof {
            assert(r@ =~= unlisted(taken.to_set().insert(id@)));
        }
        i += 1;
    }
    proof {
        assert(ids.order().take(n as int) =~= ids.order());
    }
    r
}

/// The selections that the identifiers `ids` ask for on `host`.
pub fn select(ids: &ArtifactSet, host: HostPlatform) -> (r: BuildSelections)
    ensures
        r == selections_for(ids@, host),
{
    let table = classification_table();
    let mut r = BuildSelections::new();
    let n = ids.len();
    let mut i: usize = 0;
    while i < n
        invariant
            i <= n,
            n == ids.order().len(),
            ids.order().to_set() == ids@,
            table_views(table@) == classification(),
            forall|t: Toggle|
                r.has(t) == exists|k: int|
                    0 <= k < i && #[trigger] enables(ids.order()[k], host, t),
        decreases n - i,
    {
        let id = ids.get(i);
        let ghost before = r;
        r.enable_artifact(&table, &id, host);
        proof {
            assert forall|t: Toggle|
                r.has(t) == exists|k: int|
                    0 <= k < i + 1 && #[trigger] enables(ids.order()[k], host, t) by {
                assert(r.has(t) == (before.has(t) || enables(ids.order()[i as int], host, t)));
                if before.has(t) {
                    let k = choose|k: int|
                        0 <= k < i && #[trigger] enables(ids.order()[k], host, t);
                    assert(0 <= k < i + 1 && enables(ids.order()[k], host, t));
                }
            }
        }
        i += 1;
    }
    proof {
        assert forall|t: Toggle| r.has(t) == selections_for(ids@, host).has(t) by {
            lemma_selections_switch(ids@, host, t);
            if r.has(t) {
                let k = choose|k: int| 0 <= k < i && #[trigger] enables(ids.order()[k], host, t);
                assert(ids.order().to_set().contains(ids.order()[k]));
            }
            if enabled_by(ids@, host, t) {
                let id = choose|id: Seq<char>| ids@.contains(id) && #[trigger] enables(id, host, t);
                assert(ids.order().contains(id));
                let k = choose|k: int| 0 <= k < ids.order().len() && ids.order()[k] == id;
                assert(enables(ids.order()[k], host, t));
            }
        }
        r.lemma_same_switches(selections_for(ids@, host));
    }
    r
}

} // verus!
