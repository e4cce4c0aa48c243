//! The panel: the list of virtual devices with their start and stop controls, or the live display
//! of one of them.
use crate::discovery::{self, AvdInfo, AvdView, EmulatorStatus, StatusMap};
use crate::sdk::{self, SdkTools};
use crate::text;
use vstd::prelude::*;

verus! {

/// The gRPC port of an emulator whose own port is not known.
pub const DEFAULT_GRPC_PORT: u16 = 8554;

/// How often a launched emulator is looked for.
pub const LAUNCH_POLLS: u32 = 45;

/// How long to wait before each look.
pub const LAUNCH_POLL_DELAY_SECS: u64 = 1;

/// How long an emulator that was told to stop is given to do so.
pub const STOP_DELAY_SECS: u64 = 2;

// ---------------------------------------------------------------------------------------------
// State
// ---------------------------------------------------------------------------------------------

/// The panel can be in one of two modes: browsing the AVD list, or actively
/// displaying a connected emulator's screen.
#[derive(Clone, Debug)]
pub enum PanelMode {
    /// Showing the list of available AVDs with start/stop controls.
    AvdList,
    /// Showing the live emulator display for the given AVD.
    Display { avd_name: String, grpc_port: u16 },
}

/// The panel's state. `P` is the kind of path by which the SDK root is known.
pub struct AndroidEmulatorPanel<P> {
    pub sdk_root: Option<P>,
    pub avds: Vec<AvdInfo>,
    pub emulator_status: StatusMap,
    pub selected_avd: Option<String>,
    pub is_refreshing: bool,
    pub launched_emulator_process_ids: Vec<u32>,
    pub mode: PanelMode,
}

/// The tools that a refresh runs, by their paths below the SDK root. A tool that does not exist is
/// not run.
#[derive(Clone, Copy, Debug, PartialEq, Eq)]
pub struct RefreshPlan {
    /// Lists the AVDs.
    pub avdmanager: Option<&'static str>,
    /// Lists the emulators that are up.
    pub adb: Option<&'static str>,
}

/// An AVD being launched.
#[derive(Clone, Debug)]
pub struct LaunchTask {
    pub avd_name: String,
    pub grpc_port: u16,
    /// The emulator's path below the SDK root.
    pub emulator: &'static str,
    /// The path of `adb` below the SDK root, where it exists.
    pub adb: Option<&'static str>,
    /// How often the emulator was looked for in vain.
    pub polls: u32,
}

/// What follows in a launch.
#[derive(Clone, Copy, Debug, PartialEq, Eq)]
pub enum LaunchStep {
    /// Wait, then look for the emulator.
    Poll,
    /// Open the emulator's display.
    Open,
    /// The emulator did not come up.
    GiveUp,
}

/// An emulator being stopped.
#[derive(Clone, Debug)]
pub struct StopTask {
    pub avd_name: String,
    pub serial: String,
    /// The path of `adb` below the SDK root.
    pub adb: &'static str,
}

/// Whether an AVD runs.
pub open spec fn runs(statuses: Map<Seq<char>, EmulatorStatus>, name: Seq<char>) -> bool {
    statuses.contains_key(name) && statuses[name] is Running
}

/// Whether the AVD `name` runs.
fn is_running(statuses: &StatusMap, name: &str) -> (running: bool)
    ensures
        running == runs(statuses@, name@),
{
    match statuses.get(name) {
        Some(EmulatorStatus::Running { .. }) => true,
        _ => false,
    }
}

/// The gRPC port at which the display of `name` is opened: the one that its serial gives.
pub open spec fn display_port(statuses: Map<Seq<char>, EmulatorStatus>, name: Seq<char>) -> u16 {
    if runs(statuses, name) {
        match discovery::serial_grpc_port(statuses[name]->serial@) {
            Some(port) => port,
            None => DEFAULT_GRPC_PORT,
        }
    } else {
        DEFAULT_GRPC_PORT
    }
}

impl<P> AndroidEmulatorPanel<P> {
    /// The path of `avdmanager` below the SDK root: that of a current SDK before that of an old one.
    pub open spec fn avdmanager(self, tools: SdkTools) -> Option<&'static str> {
        if self.sdk_root is None {
            None
        } else if tools.avdmanager_latest {
            Some(sdk::AVDMANAGER_LATEST)
        } else if tools.avdmanager_legacy {
            Some(sdk::AVDMANAGER_LEGACY)
        } else {
            None
        }
    }

    /// The path of `adb` below the SDK root.
    pub open spec fn adb(self, tools: SdkTools) -> Option<&'static str> {
        if self.sdk_root is Some && tools.adb {
            Some(sdk::ADB)
        } else {
            None
        }
    }

    /// The path of the emulator below the SDK root.
    pub open spec fn emulator(self, tools: SdkTools) -> Option<&'static str> {
        if self.sdk_root is Some && tools.emulator {
            Some(sdk::EMULATOR)
        } else {
            None
        }
    }

    /// The tools that a refresh runs.
    pub open spec fn refresh_plan(self, tools: SdkTools) -> RefreshPlan {
        RefreshPlan { avdmanager: self.avdmanager(tools), adb: self.adb(tools) }
    }

    /// The panel while a refresh is under way.
    pub open spec fn refreshing(self) -> AndroidEmulatorPanel<P> {
        AndroidEmulatorPanel { is_refreshing: true, ..self }
    }

    pub fn avdmanager_path(&self, tools: &SdkTools) -> (path: Option<&'static str>)
        ensures
            path == self.avdmanager(*tools),
    {
        if self.sdk_root.is_none() {
            None
        } else if tools.avdmanager_latest {
            Some(sdk::AVDMANAGER_LATEST)
        } else if tools.avdmanager_legacy {
            Some(sdk::AVDMANAGER_LEGACY)
        } else {
            None
        }
    }

    pub fn adb_path(&self, tools: &SdkTools) -> (path: Option<&'static str>)
        ensures
            path == self.adb(*tools),
    {
        if self.sdk_root.is_some() && tools.adb {
            Some(sdk::ADB)
        } else {
            None
        }
    }

    pub fn emulator_path(&self, tools: &SdkTools) -> (path: Option<&'static str>)
        ensures
            path == self.emulator(*tools),
    {
        if self.sdk_root.is_some() && tools.emulator {
            Some(sdk::EMULATOR)
        } else {
            None
        }
    }

    /// A panel that shows the AVD list and has begun its first refresh.
    pub fn new(sdk_root: Option<P>, tools: &SdkTools) -> (created: (
        AndroidEmulatorPanel<P>,
        RefreshPlan,
    ))
        ensures
            created.0.sdk_root == sdk_root,
            created.0.avds@ == Seq::<AvdInfo>::empty(),
            created.0.emulator_status@ == Map::<Seq<char>, EmulatorStatus>::empty(),
            created.0.selected_avd is None,
            created.0.is_refreshing,
            created.0.launched_emulator_process_ids@ == Seq::<u32>::empty(),
            created.0.mode is AvdList,
            created.1 == created.0.refresh_plan(*tools),
    {
        let mut panel = AndroidEmulatorPanel {
            sdk_root,
            avds: Vec::new(),
            emulator_status: StatusMap::new(),
            selected_avd: None,
            is_refreshing: false,
            launched_emulator_process_ids: Vec::new(),
            mode: PanelMode::AvdList,
        };
        let plan = panel.refresh(tools);
        (panel, plan)
    }

    /// Begins a refresh of the AVD list.
    pub fn refresh(&mut self, tools: &SdkTools) -> (plan: RefreshPlan)
        ensures
            *final(self) == old(self).refreshing(),
            plan == old(self).refresh_plan(*tools),
    {
        let plan = RefreshPlan {
            avdmanager: self.avdmanager_path(tools),
            adb: self.adb_path(tools),
        };
        self.is_refreshing = true;
        plan
    }

    /// Begins a refresh of the AVD list where no window is at hand.
    pub fn refresh_without_window(&mut self, tools: &SdkTools) -> (plan: RefreshPlan)
        ensures
            *final(self) == old(self).refreshing(),
            plan == old(self).refresh_plan(*tools),
    {
        self.refresh(tools)
    }

    /// Ends a refresh with what it found.
    pub fn finish_refresh(
        &mut self,
        avds: Vec<AvdInfo>,
        running: StatusMap,
    )
        ensures
            *final(self) == (AndroidEmulatorPanel {
                avds,
                emulator_status: running,
                is_refreshing: false,
                ..*old(self)
            }),
    {
        self.avds = avds;
        self.emulator_status = running;
        self.is_refreshing = false;
    }

    /// Ends a refresh with what the tools printed. `avd_stdout` and `devices_stdout` are `None` where
    /// the tool does not exist or could not be run; `answers` holds what the emulators replied, in
    /// the order of [`discovery::list_serials`].
    pub fn finish_refresh_from_output(
        &mut self,
        avd_stdout: Option<&[u8]>,
        devices_stdout: Option<&[u8]>,
        answers: &Vec<Option<Vec<u8>>>,
    )
        ensures
            discovery::avd_views(final(self).avds@) == match avd_stdout {
                Some(stdout) => discovery::listed_avds(text::lines(text::utf8_lossy(stdout@))),
                None => Seq::empty(),
            },
            forall|name: Seq<char>| #[trigger]
                final(self).emulator_status@.contains_key(name)
                    ==> final(self).emulator_status@[name] is Running,
            discovery::running_serials(final(self).emulator_status@) == match devices_stdout {
                Some(stdout) => discovery::running_map(
                    discovery::listed_serials(text::lines(text::utf8_lossy(stdout@))),
                    discovery::decoded_answers(answers@),
                ),
                None => Map::empty(),
            },
            avd_stdout matches Some(stdout) ==> text::decodes_utf8(stdout@),
            devices_stdout matches Some(stdout) ==> {
                &&& text::decodes_utf8(stdout@)
                &&& forall|i: int|
                    0 <= i < answers@.len() ==> (#[trigger] answers@[i] matches Some(answer)
                        ==> text::decodes_utf8(answer@))
            },
            *final(self) == (AndroidEmulatorPanel {
                avds: final(self).avds,
                emulator_status: final(self).emulator_status,
                is_refreshing: false,
                ..*old(self)
            }),
    {
        let avds = match avd_stdout {
            Some(stdout) => discovery::list_avds(stdout),
            None => Vec::new(),
        };
        let running = match devices_stdout {
            Some(stdout) => discovery::list_running_emulators(stdout, answers),
            None => StatusMap::new(),
        };
        self.finish_refresh(avds, running);
    }

    /// Selects an AVD in the list.
    pub fn select_avd(&mut self, avd_name: String)
        ensures
            *final(self) == (AndroidEmulatorPanel { selected_avd: Some(avd_name), ..*old(self) }),
    {
        self.selected_avd = Some(avd_name);
    }

    /// Switches the panel into display mode for the given AVD / gRPC port.
    pub fn open_display(&mut self, avd_name: String, grpc_port: u16)
        ensures
            *final(self) == (AndroidEmulatorPanel {
                mode: PanelMode::Display { avd_name, grpc_port },
                ..*old(self)
            }),
    {
        self.mode = PanelMode::Display { avd_name, grpc_port };
    }

    /// Switches back to the AVD list and refreshes device status.
    pub fn close_display(&mut self, tools: &SdkTools) -> (plan: RefreshPlan)
        ensures
            *final(self) == (AndroidEmulatorPanel {
                mode: PanelMode::AvdList,
                ..old(self).refreshing()
            }),
            plan == old(self).refresh_plan(*tools),
    {
        self.mode = PanelMode::AvdList;
        self.refresh(tools)
    }

    /// Opens the display of an AVD from the list, at the gRPC port that its serial gives.
    pub fn open_avd(&mut self, avd_name: String)
        requires
            runs(old(self).emulator_status@, avd_name@) ==> discovery::grpc_port_fits(
                old(self).emulator_status@[avd_name@]->serial@,
            ),
        ensures
            *final(self) == (AndroidEmulatorPanel {
                mode: PanelMode::Display {
                    avd_name,
                    grpc_port: display_port(old(self).emulator_status@, avd_name@),
                },
                ..*old(self)
            }),
    {
        let port = match self.emulator_status.get(avd_name.as_str()) {
            Some(EmulatorStatus::Running { serial }) => discovery::grpc_port_from_serial(
                serial.as_str(),
            ),
            _ => None,
        };
        let grpc_port: u16 = match port {
            Some(port) => port,
            None => DEFAULT_GRPC_PORT,
        };
        self.open_display(avd_name, grpc_port);
    }

    /// Whether the serial of an AVD gives a port number above which the gRPC port still fits.
    pub fn can_open(&self, avd_name: &str) -> (fits: bool)
        ensures
            fits == (runs(self.emulator_status@, avd_name@) ==> discovery::grpc_port_fits(
                self.emulator_status@[avd_name@]->serial@,
            )),
    {
        match self.emulator_status.get(avd_name) {
            Some(EmulatorStatus::Running { serial }) => match discovery::console_port_from_serial(
                serial.as_str(),
            ) {
                Some(port) => port <= u16::MAX - discovery::GRPC_PORT_OFFSET,
                None => true,
            },
            _ => true,
        }
    }
}

// ---------------------------------------------------------------------------------------------
// Launching, stopping, quitting
// ---------------------------------------------------------------------------------------------

/// The panel's mode once the emulator of `name` was told to stop: if its display is open, the panel
/// goes back to the list.
pub open spec fn mode_after_stop(mode: PanelMode, name: Seq<char>) -> PanelMode {
    match mode {
        PanelMode::Display { avd_name, .. } if avd_name@ == name => PanelMode::AvdList,
        mode => mode,
    }
}

/// The arguments with which `kill` terminates a process.
pub open spec fn terminate_args(process_id: u32) -> Seq<Seq<char>> {
    seq!["-TERM"@, text::decimal(process_id as nat)]
}

/// The arguments of the `kill` commands that terminate some processes.
pub open spec fn quit_commands(process_ids: Seq<u32>) -> Seq<Seq<Seq<char>>> {
    process_ids.map_values(|process_id: u32| terminate_args(process_id))
}

/// The views of a list of argument lists.
pub open spec fn command_views(commands: Seq<Vec<String>>) -> Seq<Seq<Seq<char>>> {
    commands.map_values(|args: Vec<String>| discovery::string_views(args@))
}

impl<P> AndroidEmulatorPanel<P> {
    /// Begins to launch an AVD. `free_port` is a free port of the machine, if one was found. Without
    /// an emulator to run there is nothing to launch.
    pub fn launch_avd(&self, avd_name: String, free_port: Option<u16>, tools: &SdkTools) -> (task:
        Option<LaunchTask>)
        ensures
            match self.emulator(*tools) {
                Some(emulator) => task == Some(
                    LaunchTask {
                        avd_name,
                        grpc_port: match free_port {
                            Some(port) => port,
                            None => DEFAULT_GRPC_PORT,
                        },
                        emulator,
                        adb: self.adb(*tools),
                        polls: 0,
                    },
                ),
                None => task is None,
            },
    {
        match self.emulator_path(tools) {
            Some(emulator) => {
                let grpc_port: u16 = match free_port {
                    Some(port) => port,
                    None => DEFAULT_GRPC_PORT,
                };
                Some(LaunchTask { avd_name, grpc_port, emulator, adb: self.adb_path(tools), polls: 0 })
            },
            None => None,
        }
    }

    /// Remembers the process of a launched emulator.
    pub fn emulator_started(&mut self, process_id: u32)
        ensures
            final(self).launched_emulator_process_ids@ == old(
                self,
            ).launched_emulator_process_ids@.push(process_id),
            *final(self) == (AndroidEmulatorPanel {
                launched_emulator_process_ids: final(self).launched_emulator_process_ids,
                ..*old(self)
            }),
    {
        self.launched_emulator_process_ids.push(process_id);
    }

    /// Ends a launch that succeeded: opens the emulator's display and refreshes the list.
    pub fn finish_launch(&mut self, task: LaunchTask, tools: &SdkTools) -> (plan: RefreshPlan)
        ensures
            *final(self) == (AndroidEmulatorPanel {
                mode: PanelMode::Display { avd_name: task.avd_name, grpc_port: task.grpc_port },
                ..old(self).refreshing()
            }),
            plan == old(self).refresh_plan(*tools),
    {
        self.open_display(task.avd_name, task.grpc_port);
        self.refresh_without_window(tools)
    }

    /// Begins to stop an emulator. Without `adb`, or where the AVD does not run, there is nothing to
    /// stop.
    pub fn stop_avd(&self, avd_name: String, tools: &SdkTools) -> (task: Option<StopTask>)
        ensures
            match task {
                Some(task) => {
                    &&& self.adb(*tools) == Some(task.adb)
                    &&& runs(self.emulator_status@, avd_name@)
                    &&& task.avd_name == avd_name
                    &&& task.serial == self.emulator_status@[avd_name@]->serial
                },
                None => self.adb(*tools) is None || !runs(self.emulator_status@, avd_name@),
            },
    {
        match self.adb_path(tools) {
            Some(adb) => match self.emulator_status.get(avd_name.as_str()) {
                Some(EmulatorStatus::Running { serial }) => {
                    let serial = serial.clone();
                    Some(StopTask { avd_name, serial, adb })
                },
                _ => None,
            },
            None => None,
        }
    }

    /// Ends a stop: if this was the active display, the panel goes back to the list; the list is
    /// refreshed in any case.
    pub fn finish_stop(&mut self, task: &StopTask, tools: &SdkTools) -> (plan: RefreshPlan)
        ensures
            *final(self) == (AndroidEmulatorPanel {
                mode: mode_after_stop(old(self).mode, task.avd_name@),
                ..old(self).refreshing()
            }),
            plan == old(self).refresh_plan(*tools),
    {
        let stopped = match &self.mode {
            PanelMode::Display { avd_name, .. } => *avd_name == task.avd_name,
            PanelMode::AvdList => false,
        };
        if stopped {
            self.mode = PanelMode::AvdList;
        }
        self.refresh_without_window(tools)
    }

    /// The arguments of the `kill` commands that terminate every emulator that the panel launched,
    /// in the order of their launch. The panel forgets the processes.
    pub fn app_will_quit(&mut self) -> (commands: Vec<Vec<String>>)
        ensures
            command_views(commands@) == quit_commands(old(self).launched_emulator_process_ids@),
            final(self).launched_emulator_process_ids@ == Seq::<u32>::empty(),
            *final(self) == (AndroidEmulatorPanel {
                launched_emulator_process_ids: final(self).launched_emulator_process_ids,
                ..*old(self)
            }),
    {
        let ghost ids = self.launched_emulator_process_ids@;
        let mut commands: Vec<Vec<String>> = Vec::new();
        let mut i: usize = 0;
        while i < self.launched_emulator_process_ids.len()
            invariant
                i <= ids.len(),
                *self == *old(self),
                ids == old(self).launched_emulator_process_ids@,
                command_views(commands@) =~= quit_commands(ids.take(i as int)),
            decreases ids.len() - i,
        {
            let id: u32 = self.launched_emulator_process_ids[i];
            let args = vec!["-TERM".to_string(), text::decimal_string(id as u64)];
            assert(discovery::string_views(args@) =~= terminate_args(id));
            let ghost before = commands@;
            commands.push(args);
            assert(command_views(commands@) =~= command_views(before).push(terminate_args(id)));
            i += 1;
        }
        self.launched_emulator_process_ids = Vec::new();
        commands
    }
}

impl LaunchTask {
    /// The emulator can still be looked for.
    pub open spec fn wf(self) -> bool {
        self.polls < LAUNCH_POLLS
    }

    /// The launch after a look for the emulator, and what follows.
    pub open spec fn poll_step(self, running: bool) -> (LaunchTask, LaunchStep) {
        if running {
            (self, LaunchStep::Open)
        } else if self.polls + 1 < LAUNCH_POLLS {
            (LaunchTask { polls: (self.polls + 1) as u32, ..self }, LaunchStep::Poll)
        } else {
            (self, LaunchStep::GiveUp)
        }
    }

    /// The launch after `misses` looks in vain.
    pub open spec fn after_misses(self, misses: nat) -> LaunchTask
        decreases misses,
    {
        if misses == 0 {
            self
        } else {
            self.after_misses((misses - 1) as nat).poll_step(false).0
        }
    }

    /// The arguments with which the emulator is started.
    pub fn args(&self) -> (args: Vec<String>)
        ensures
            discovery::string_views(args@) == seq![
                "-avd"@,
                self.avd_name@,
                "-no-window"@,
                "-grpc"@,
                text::decimal(self.grpc_port as nat),
            ],
    {
        vec![
            "-avd".to_string(),
            self.avd_name.clone(),
            "-no-window".to_string(),
            "-grpc".to_string(),
            text::decimal_string(self.grpc_port as u64),
        ]
    }

    /// What follows once the emulator's process has started: without `adb` to look for it, its
    /// display is opened at once.
    pub fn started(&self) -> (step: LaunchStep)
        ensures
            step == if self.adb is Some {
                LaunchStep::Poll
            } else {
                LaunchStep::Open
            },
    {
        if self.adb.is_some() {
            LaunchStep::Poll
        } else {
            LaunchStep::Open
        }
    }

    /// What follows on a look for the emulator that found the statuses `running`.
    pub fn polled(&mut self, running: &StatusMap) -> (step: LaunchStep)
        requires
            old(self).wf(),
        ensures
            final(self).wf(),
            (*final(self), step) == old(self).poll_step(runs(running@, old(self).avd_name@)),
    {
        if is_running(running, self.avd_name.as_str()) {
            LaunchStep::Open
        } else if self.polls + 1 < LAUNCH_POLLS {
            self.polls = self.polls + 1;
            LaunchStep::Poll
        } else {
            LaunchStep::GiveUp
        }
    }
}

/// A launched emulator is looked for exactly `LAUNCH_POLLS` times before it is given up, and its
/// display is opened as soon as one look finds it.
pub proof fn lemma_launch_polls(task: LaunchTask, misses: nat)
    requires
        task.polls == 0,
        misses < LAUNCH_POLLS,
    ensures
        task.after_misses(misses) == (LaunchTask { polls: misses as u32, ..task }),
        task.after_misses(misses).wf(),
        task.after_misses(misses).poll_step(true).1 is Open,
        task.after_misses(misses).poll_step(true).0 == task.after_misses(misses),
        task.after_misses(misses).poll_step(false).1 is GiveUp <==> misses + 1 == LAUNCH_POLLS,
        task.after_misses(misses).poll_step(false).1 is Poll <==> misses + 1 < LAUNCH_POLLS,
    decreases misses,
{
    if misses > 0 {
        lemma_launch_polls(task, (misses - 1) as nat);
    }
}

impl StopTask {
    /// The arguments with which `adb` stops the emulator.
    pub fn args(&self) -> (args: Vec<String>)
        ensures
            discovery::string_views(args@) == seq!["-s"@, self.serial@, "emu"@, "kill"@],
    {
        vec!["-s".to_string(), self.serial.clone(), "emu".to_string(), "kill".to_string()]
    }
}

// ---------------------------------------------------------------------------------------------
// What the panel shows
// ---------------------------------------------------------------------------------------------

/// What a button in a row does.
#[derive(Clone, Copy, Debug, PartialEq, Eq)]
pub enum RowAction {
    Open,
    Stop,
    Launch,
}

/// A button in a row.
#[derive(Clone, Debug)]
pub struct RowButton {
    pub id: String,
    pub action: RowAction,
}

/// The row of one AVD.
#[derive(Clone, Debug)]
pub struct AvdRow {
    pub avd_name: String,
    /// The target and the ABI.
    pub subtitle: String,
    pub is_selected: bool,
    pub is_running: bool,
    pub buttons: Vec<RowButton>,
}

/// A button as text.
#[verifier::ext_equal]
pub struct ButtonView {
    pub id: Seq<char>,
    pub action: RowAction,
}

/// A row as text.
#[verifier::ext_equal]
pub struct RowView {
    pub avd_name: Seq<char>,
    pub subtitle: Seq<char>,
    pub is_selected: bool,
    pub is_running: bool,
    pub buttons: Seq<ButtonView>,
}

impl View for RowButton {
    type V = ButtonView;

    open spec fn view(&self) -> ButtonView {
        ButtonView { id: self.id@, action: self.action }
    }
}

impl View for AvdRow {
    type V = RowView;

    open spec fn view(&self) -> RowView {
        RowView {
            avd_name: self.avd_name@,
            subtitle: self.subtitle@,
            is_selected: self.is_selected,
            is_running: self.is_running,
            buttons: self.buttons@.map_values(|button: RowButton| button@),
        }
    }
}

/// The body of the panel while it shows the AVD list.
#[derive(Clone, Debug)]
pub enum ListBody {
    /// The SDK was not found.
    SdkMissing,
    /// A refresh is under way.
    Refreshing,
    /// There are no AVDs.
    NoAvds,
    /// One row for each AVD.
    Rows(Vec<AvdRow>),
}

/// What the panel shows.
#[derive(Clone, Debug)]
pub enum PanelView {
    /// The display of an emulator.
    Display { avd_name: String, grpc_port: u16 },
    /// The AVD list.
    List(ListBody),
}

/// The views of a list of rows.
pub open spec fn row_views(rows: Seq<AvdRow>) -> Seq<RowView> {
    rows.map_values(|row: AvdRow| row@)
}

/// The buttons of a row: a running AVD can be opened and stopped, any other can be launched.
pub open spec fn row_buttons(name: Seq<char>, running: bool) -> Seq<ButtonView> {
    if running {
        seq![
            ButtonView { id: "open-"@ + name, action: RowAction::Open },
            ButtonView { id: "stop-"@ + name, action: RowAction::Stop },
        ]
    } else {
        seq![ButtonView { id: "launch-"@ + name, action: RowAction::Launch }]
    }
}

impl<P> AndroidEmulatorPanel<P> {
    /// The row of an AVD.
    pub open spec fn row(self, avd: AvdView) -> RowView {
        RowView {
            avd_name: avd.name,
            subtitle: avd.target + " \u{b7} "@ + avd.abi,
            is_selected: match self.selected_avd {
                Some(selected) => selected@ == avd.name,
                None => false,
            },
            is_running: runs(self.emulator_status@, avd.name),
            buttons: row_buttons(avd.name, runs(self.emulator_status@, avd.name)),
        }
    }

    /// The row of an AVD, with the controls that its status allows.
    pub fn render_avd_row(&self, avd: &AvdInfo) -> (row: AvdRow)
        ensures
            row@ == self.row(avd@),
    {
        let is_selected = match &self.selected_avd {
            Some(selected) => *selected == avd.name,
            None => false,
        };
        let is_running = is_running(&self.emulator_status, avd.name.as_str());
        let mut buttons: Vec<RowButton> = Vec::new();
        if is_running {
            buttons.push(
                RowButton {
                    id: "open-".to_string().concat(avd.name.as_str()),
                    action: RowAction::Open,
                },
            );
            buttons.push(
                RowButton {
                    id: "stop-".to_string().concat(avd.name.as_str()),
                    action: RowAction::Stop,
                },
            );
        } else {
            buttons.push(
                RowButton {
                    id: "launch-".to_string().concat(avd.name.as_str()),
                    action: RowAction::Launch,
                },
            );
        }
        AvdRow {
            avd_name: avd.name.clone(),
            subtitle: avd.target.clone().concat(" \u{b7} ").concat(avd.abi.as_str()),
            is_selected,
            is_running,
            buttons,
        }
    }

    /// What the panel shows: the display that is open, or else the AVD list.
    pub fn render(&self) -> (view: PanelView)
        ensures
            match self.mode {
                PanelMode::Display { avd_name, grpc_port } => view == (PanelView::Display {
                    avd_name,
                    grpc_port,
                }),
                PanelMode::AvdList => match view {
                    PanelView::Display { .. } => false,
                    PanelView::List(ListBody::SdkMissing) => self.sdk_root is None,
                    PanelView::List(ListBody::Refreshing) => self.sdk_root is Some
                        && self.is_refreshing,
                    PanelView::List(ListBody::NoAvds) => {
                        &&& self.sdk_root is Some && !self.is_refreshing
                        &&& self.avds@.len() == 0
                    },
                    PanelView::List(ListBody::Rows(rows)) => {
                        &&& self.sdk_root is Some && !self.is_refreshing
                        &&& self.avds@.len() > 0
                        &&& row_views(rows@) == self.avds@.map_values(
                            |avd: AvdInfo| self.row(avd@),
                        )
                    },
                },
            },
    {
        match &self.mode {
            PanelMode::Display { avd_name, grpc_port } => PanelView::Display {
                avd_name: avd_name.clone(),
                grpc_port: *grpc_port,
            },
            PanelMode::AvdList => if self.sdk_root.is_none() {
                PanelView::List(ListBody::SdkMissing)
            } else if self.is_refreshing {
                PanelView::List(ListBody::Refreshing)
            } else if self.avds.len() == 0 {
                PanelView::List(ListBody::NoAvds)
            } else {
                PanelView::List(ListBody::Rows(self.render_rows()))
            },
        }
    }

    /// The rows of all AVDs, in order.
    fn render_rows(&self) -> (rows: Vec<AvdRow>)
        ensures
            row_views(rows@) == self.avds@.map_values(|avd: AvdInfo| self.row(avd@)),
    {
        let mut rows: Vec<AvdRow> = Vec::new();
        let mut i: usize = 0;
        while i < self.avds.len()
            invariant
                i <= self.avds@.len(),
                row_views(rows@) =~= self.avds@.take(i as int).map_values(
                    |avd: AvdInfo| self.row(avd@),
                ),
            decreases self.avds@.len() - i,
        {
            let row = self.render_avd_row(&self.avds[i]);
            let ghost before = rows@;
            rows.push(row);
            assert(row_views(rows@) =~= row_views(before).push(row@));
            i += 1;
        }
        rows
    }
}

impl RowAction {
    /// The tip that a button shows.
    pub fn tooltip(&self) -> (tip: &'static str)
        ensures
            tip@ == match self {
                RowAction::Open => "Open display"@,
                RowAction::Stop => "Stop emulator"@,
                RowAction::Launch => "Launch emulator"@,
            },
    {
        match self {
            RowAction::Open => "Open display",
            RowAction::Stop => "Stop emulator",
            RowAction::Launch => "Launch emulator",
        }
    }
}

impl ListBody {
    /// The note that stands in place of the rows.
    pub fn note(&self) -> (note: Option<&'static str>)
        ensures
            match (self, note) {
                (ListBody::SdkMissing, Some(note)) => note@ == "Android SDK not found"@,
                (ListBody::Refreshing, Some(note)) => note@ == "Refreshing\u{2026}"@,
                (ListBody::NoAvds, Some(note)) => note@
                    == "No AVDs found. Create one using avdmanager or Android Studio."@,
                (ListBody::Rows(_), None) => true,
                _ => false,
            },
    {
        match self {
            ListBody::SdkMissing => Some("Android SDK not found"),
            ListBody::Refreshing => Some("Refreshing\u{2026}"),
            ListBody::NoAvds => Some(
                "No AVDs found. Create one using avdmanager or Android Studio.",
            ),
            ListBody::Rows(_) => None,
        }
    }
}

/// How the user may mend a missing SDK.
pub const SDK_HINT: &'static str =
    "Set ANDROID_SDK_ROOT or ANDROID_HOME, or install the Android SDK in ~/Library/Android/sdk (macOS) or ~/Android/Sdk (Linux).";

// ---------------------------------------------------------------------------------------------
// The panel in its dock
// ---------------------------------------------------------------------------------------------

/// The name under which the panel is known to the editor.
pub const ANDROID_EMULATOR_PANEL_KEY: &'static str = "AndroidEmulatorPanel";

/// The panel's title, and the tip of its icon.
pub const PANEL_TITLE: &'static str = "Android Emulator";

/// The panel's width when it is first opened, in logical pixels.
pub const DEFAULT_PANEL_WIDTH: u32 = 320;

/// Where the panel's icon stands among those of the other panels.
pub const ACTIVATION_PRIORITY: u32 = 10;

/// A side of the window at which a panel may be docked.
#[derive(Clone, Copy, Debug, PartialEq, Eq)]
pub enum DockPosition {
    Left,
    Bottom,
    Right,
}

/// The panel's actions.
#[derive(Clone, Copy, Debug, PartialEq, Eq)]
pub enum PanelAction {
    /// Toggles the Android Emulator panel.
    Toggle,
    /// Moves focus to the Android Emulator panel.
    ToggleFocus,
}

impl PanelAction {
    /// Whether the action closes the panel, given whether the panel took the focus.
    pub fn closes_panel(&self, took_focus: bool) -> (closes: bool)
        ensures
            closes == (self is Toggle && !took_focus),
    {
        match self {
            PanelAction::Toggle => !took_focus,
            PanelAction::ToggleFocus => false,
        }
    }
}

impl<P> AndroidEmulatorPanel<P> {
    /// The side at which the panel is docked.
    pub fn position(&self) -> (position: DockPosition)
        ensures
            position == DockPosition::Right,
    {
        DockPosition::Right
    }

    /// Whether the panel may be docked at `position`: it may at every side.
    pub fn position_is_valid(&self, position: DockPosition) -> (valid: bool)
        ensures
            valid == (position is Left || position is Right || position is Bottom),
            valid,
    {
        match position {
            DockPosition::Left | DockPosition::Right | DockPosition::Bottom => true,
        }
    }
}

// ---------------------------------------------------------------------------------------------
// What holds of the panel
// ---------------------------------------------------------------------------------------------

/// Without an SDK no tool is run.
pub proof fn lemma_without_sdk_nothing_runs<P>(panel: AndroidEmulatorPanel<P>, tools: SdkTools)
    requires
        panel.sdk_root is None,
    ensures
        panel.refresh_plan(tools) == (RefreshPlan { avdmanager: None, adb: None }),
        panel.emulator(tools) is None,
{
}

/// An AVD runs when, and only when, an emulator reported its name; its row then offers to open and
/// stop it, and otherwise to launch it.
pub proof fn lemma_row_follows_the_reports<P>(
    panel: AndroidEmulatorPanel<P>,
    avd: AvdView,
    serials: Seq<Seq<char>>,
    answers: Seq<Option<Seq<char>>>,
)
    requires
        discovery::running_serials(panel.emulator_status@) == discovery::running_map(
            serials,
            answers,
        ),
    ensures
        panel.row(avd).is_running <==> (exists|i: int|
            0 <= i < serials.len() && #[trigger] discovery::name_at(answers, i) == Some(avd.name)),
        panel.row(avd).is_running ==> panel.row(avd).buttons.len() == 2 && panel.row(
            avd,
        ).buttons[0].action is Open && panel.row(avd).buttons[1].action is Stop,
        !panel.row(avd).is_running ==> panel.row(avd).buttons.len() == 1 && panel.row(
            avd,
        ).buttons[0].action is Launch,
{
    discovery::lemma_last_report_wins(serials, answers, avd.name);
}

/// The rows are those of the devices that were listed, in the order of the listing.
pub proof fn lemma_rows_follow_the_listing<P>(panel: AndroidEmulatorPanel<P>, listed: Seq<AvdView>)
    requires
        discovery::avd_views(panel.avds@) == listed,
    ensures
        panel.avds@.map_values(|avd: AvdInfo| panel.row(avd@)) == listed.map_values(
            |avd: AvdView| panel.row(avd),
        ),
{
}

/// The emulator is started with the port at which its display is opened once a look finds it.
pub proof fn lemma_launched_display_keeps_its_port(task: LaunchTask, misses: nat)
    requires
        task.polls == 0,
        misses < LAUNCH_POLLS,
    ensures
        task.after_misses(misses).poll_step(true).0.avd_name == task.avd_name,
        task.after_misses(misses).poll_step(true).0.grpc_port == task.grpc_port,
{
    lemma_launch_polls(task, misses);
}

/// The display of an AVD that runs as `emulator-<port>` is opened at `port + 3000`.
pub proof fn lemma_display_port_of_running_avd(
    statuses: Map<Seq<char>, EmulatorStatus>,
    name: Seq<char>,
    port: nat,
)
    requires
        runs(statuses, name),
        statuses[name]->serial@ == "emulator-"@ + text::decimal(port),
        port + discovery::GRPC_PORT_OFFSET <= u16::MAX,
    ensures
        discovery::grpc_port_fits(statuses[name]->serial@),
        display_port(statuses, name) == port + discovery::GRPC_PORT_OFFSET,
{
    discovery::lemma_grpc_port_of_console_port(port);
}

/// Stopping an emulator closes its own display and no other.
pub proof fn lemma_stop_closes_its_own_display(mode: PanelMode, name: Seq<char>)
    ensures
        mode_after_stop(mode, name) matches PanelMode::Display { avd_name, .. } ==> avd_name@
            != name,
        (mode matches PanelMode::Display { avd_name, .. } ==> avd_name@ != name)
            ==> mode_after_stop(mode, name) == mode,
{
}

/// Every launched emulator is terminated when the application quits, in the order of the launches,
/// and none is terminated a second time.
pub proof fn lemma_quit_terminates_each_emulator_once(process_ids: Seq<u32>, next: u32)
    ensures
        quit_commands(process_ids.push(next)) == quit_commands(process_ids).push(
            terminate_args(next),
        ),
        quit_commands(Seq::empty()) == Seq::<Seq<Seq<char>>>::empty(),
{
}

/// A tool is run from its place below the SDK root when, and only when, there is an SDK and the tool
/// exists there. Of the two places of `avdmanager` the current one comes first. A refresh runs
/// `avdmanager` and `adb`, each whether or not the other exists.
pub proof fn lemma_tools_that_exist_are_run<P>(panel: AndroidEmulatorPanel<P>, tools: SdkTools)
    requires
        panel.sdk_root is Some,
    ensures
        tools.avdmanager_latest ==> panel.avdmanager(tools) == Some(
            "cmdline-tools/latest/bin/avdmanager",
        ),
        !tools.avdmanager_latest && tools.avdmanager_legacy ==> panel.avdmanager(tools) == Some(
            "tools/bin/avdmanager",
        ),
        !tools.avdmanager_latest && !tools.avdmanager_legacy ==> panel.avdmanager(tools) is None,
        tools.adb ==> panel.adb(tools) == Some("platform-tools/adb"),
        !tools.adb ==> panel.adb(tools) is None,
        tools.emulator ==> panel.emulator(tools) == Some("emulator/emulator"),
        !tools.emulator ==> panel.emulator(tools) is None,
        panel.refresh_plan(tools).avdmanager == panel.avdmanager(tools),
        panel.refresh_plan(tools).adb == panel.adb(tools),
{
}

/// Beginning a refresh marks the panel and changes nothing else: what was listed, selected, opened
/// and launched stays.
pub proof fn lemma_refresh_keeps_the_rest<P>(panel: AndroidEmulatorPanel<P>)
    ensures
        panel.refreshing().is_refreshing,
        panel.refreshing().sdk_root == panel.sdk_root,
        panel.refreshing().avds == panel.avds,
        panel.refreshing().emulator_status == panel.emulator_status,
        panel.refreshing().selected_avd == panel.selected_avd,
        panel.refreshing().launched_emulator_process_ids == panel.launched_emulator_process_ids,
        panel.refreshing().mode == panel.mode,
{
}

/// An AVD runs when, and only when, it has a status and that is `Running`. Its display is opened at
/// the gRPC port of its serial; an AVD that does not run, or whose serial gives no port, is opened at
/// port 8554.
pub proof fn lemma_display_ports(
    statuses: Map<Seq<char>, EmulatorStatus>,
    name: Seq<char>,
    tail: Seq<char>,
)
    ensures
        runs(statuses, name) <==> statuses.contains_key(name) && statuses[name] !is Stopped,
        !runs(statuses, name) ==> display_port(statuses, name) == 8554,
        runs(statuses, name) && statuses[name]->serial@ == "emulator-"@ + tail ==> match text::parse_u16(
            tail,
        ) {
            Some(port) => port <= 62535 ==> display_port(statuses, name) == port + 3000,
            None => display_port(statuses, name) == 8554,
        },
        runs(statuses, name) && !"emulator-"@.is_prefix_of(statuses[name]->serial@) ==> display_port(
            statuses,
            name,
        ) == 8554,
{
    let other = Seq::<char>::empty();
    reveal_strlit("emulator-");
    discovery::lemma_ports_of_serial(tail, other);
    if !"emulator-"@.is_prefix_of(statuses[name]->serial@) {
        discovery::lemma_ports_of_serial(tail, statuses[name]->serial@);
    }
}

/// The row of an AVD shows its name, and its target and ABI on either side of a dot. The row is
/// marked when, and only when, its AVD is the selected one, and shows it as running when, and only
/// when, it runs. Each button is known by what it does and the AVD's name.
pub proof fn lemma_row_shows_its_avd<P>(panel: AndroidEmulatorPanel<P>, avd: AvdView)
    ensures
        panel.row(avd).avd_name == avd.name,
        panel.row(avd).subtitle == avd.target + (" \u{b7} "@ + avd.abi),
        panel.row(avd).is_selected <==> (panel.selected_avd matches Some(selected) && selected@
            == avd.name),
        panel.row(avd).is_running <==> runs(panel.emulator_status@, avd.name),
        runs(panel.emulator_status@, avd.name) ==> {
            &&& panel.row(avd).buttons.len() == 2
            &&& panel.row(avd).buttons[0] == (ButtonView {
                id: "open-"@ + avd.name,
                action: RowAction::Open,
            })
            &&& panel.row(avd).buttons[1] == (ButtonView {
                id: "stop-"@ + avd.name,
                action: RowAction::Stop,
            })
        },
        !runs(panel.emulator_status@, avd.name) ==> {
            &&& panel.row(avd).buttons.len() == 1
            &&& panel.row(avd).buttons[0] == (ButtonView {
                id: "launch-"@ + avd.name,
                action: RowAction::Launch,
            })
        },
{
    assert(panel.row(avd).subtitle =~= avd.target + (" \u{b7} "@ + avd.abi));
}

/// Each launched emulator gets a `kill` command of its own, with its process id in decimal, at its
/// place in the order of the launches.
pub proof fn lemma_quit_commands_one_by_one(process_ids: Seq<u32>)
    ensures
        quit_commands(process_ids).len() == process_ids.len(),
        forall|i: int|
            0 <= i < process_ids.len() ==> #[trigger] quit_commands(process_ids)[i] == seq![
                "-TERM"@,
                text::decimal(process_ids[i] as nat),
            ],
{
}

/// Rows and commands are viewed item by item, and a row field by field.
pub proof fn lemma_views_item_by_item(rows: Seq<AvdRow>, commands: Seq<Vec<String>>)
    ensures
        row_views(rows).len() == rows.len(),
        forall|i: int|
            0 <= i < rows.len() ==> {
                &&& (#[trigger] row_views(rows)[i]).avd_name == rows[i].avd_name@
                &&& row_views(rows)[i].subtitle == rows[i].subtitle@
                &&& row_views(rows)[i].is_selected == rows[i].is_selected
                &&& row_views(rows)[i].is_running == rows[i].is_running
                &&& row_views(rows)[i].buttons.len() == rows[i].buttons@.len()
            },
        forall|i: int, j: int|
            0 <= i < rows.len() && 0 <= j < rows[i].buttons@.len() ==> {
                &&& (#[trigger] row_views(rows)[i].buttons[j]).id == rows[i].buttons@[j].id@
                &&& row_views(rows)[i].buttons[j].action == rows[i].buttons@[j].action
            },
        command_views(commands).len() == commands.len(),
        forall|i: int, j: int|
            0 <= i < commands.len() && 0 <= j < commands[i]@.len() ==> #[trigger] command_views(
                commands,
            )[i][j] == commands[i]@[j]@,
        forall|i: int|
            0 <= i < commands.len() ==> (#[trigger] command_views(commands)[i]).len()
                == commands[i]@.len(),
{
}

} // verus!
