//! Installer and migration wizard: pages, mode selection, preservation
//! options and the host action each installation mode asks for.

use vstd::prelude::*;
use vstd::string::StringSliceAdditionalSpecFns;
use crate::ayui::{Color, Rect};
use crate::ayui::raster::{Framebuffer, Plot, plot_all, rect_pts, text_pts, rect_edges_fit, lemma_plot_all_len, lemma_plot_all_concat};

verus! {

#[derive(Debug, Clone, Copy, PartialEq, Eq, Structural)]
pub enum InstallerPage {
    Welcome,
    SystemScan,
    ModeSelection,
    MigrationOptions,
    Executing,
    Complete,
}

#[derive(Debug, Clone, Copy, PartialEq, Eq, Structural)]
pub enum InstallationMode {
    VirtualMachine,
    DualBoot,
    FullMigration,
}

/// What the host has to do for the chosen mode.
#[derive(Debug, Clone, Copy, PartialEq, Eq, Structural)]
pub enum HostAction {
    /// Start the system image in a virtual machine.
    LaunchVirtualMachine,
    /// Add a boot entry with the host's boot-loader tool.
    ConfigureDualBoot,
    /// Copy files and drivers; nothing to launch.
    MigrateInPlace,
}

pub struct AosinGuiApp {
    pub current_page: InstallerPage,
    pub selected_mode: InstallationMode,
    pub preserve_files: bool,
    pub preserve_drivers: bool,
    pub progress_percent: u32,
    pub scanned_files_count: usize,
    pub scanned_drivers_count: usize,
    pub status_message: &'static str,
}

pub open spec fn in_range(v: i32, lo: int, hi: int) -> bool {
    lo <= v <= hi
}

/// The page after `p`; the last page stays.
pub open spec fn page_after(p: InstallerPage) -> InstallerPage {
    match p {
        InstallerPage::Welcome => InstallerPage::SystemScan,
        InstallerPage::SystemScan => InstallerPage::ModeSelection,
        InstallerPage::ModeSelection => InstallerPage::MigrationOptions,
        InstallerPage::MigrationOptions => InstallerPage::Complete,
        InstallerPage::Executing => InstallerPage::Complete,
        InstallerPage::Complete => InstallerPage::Complete,
    }
}

/// The status line shown once `mode` has run.
pub open spec fn mode_status(mode: InstallationMode) -> &'static str {
    match mode {
        InstallationMode::VirtualMachine => "Launching AWEOS Virtual Machine in QEMU...",
        InstallationMode::DualBoot => "Configuring Non-Destructive Dual-Boot loader & partitions...",
        InstallationMode::FullMigration => "Migrating host files & certified drivers to AWEOS Root...",
    }
}

/// The status line after leaving page `p` with `mode` selected.
pub open spec fn status_after(p: InstallerPage, mode: InstallationMode, current: &'static str) -> &'static str {
    match p {
        InstallerPage::Welcome => "Scanning local system files & drivers...",
        InstallerPage::SystemScan => "Select installation & execution target.",
        InstallerPage::ModeSelection => "Configure data & driver preservation options.",
        InstallerPage::MigrationOptions => mode_status(mode),
        InstallerPage::Executing => "AWEOS execution & migration complete!",
        InstallerPage::Complete => current,
    }
}

pub open spec fn action_for(mode: InstallationMode) -> HostAction {
    match mode {
        InstallationMode::VirtualMachine => HostAction::LaunchVirtualMachine,
        InstallationMode::DualBoot => HostAction::ConfigureDualBoot,
        InstallationMode::FullMigration => HostAction::MigrateInPlace,
    }
}

/// Each installation mode runs its own host work, the one its status line
/// announces: the virtual-machine mode launches QEMU, the dual-boot mode
/// configures the boot loader, and the full migration migrates in place;
/// no two modes run the same work.
pub proof fn lemma_mode_actions()
    ensures
        action_for(InstallationMode::VirtualMachine) == HostAction::LaunchVirtualMachine,
        mode_status(InstallationMode::VirtualMachine) == "Launching AWEOS Virtual Machine in QEMU...",
        action_for(InstallationMode::DualBoot) == HostAction::ConfigureDualBoot,
        mode_status(InstallationMode::DualBoot) == "Configuring Non-Destructive Dual-Boot loader & partitions...",
        action_for(InstallationMode::FullMigration) == HostAction::MigrateInPlace,
        mode_status(InstallationMode::FullMigration) == "Migrating host files & certified drivers to AWEOS Root...",
        forall|a: InstallationMode, b: InstallationMode| action_for(a) == action_for(b) ==> a == b,
{
}

impl AosinGuiApp {
    pub fn new() -> (app: Self)
        ensures
            app.current_page == InstallerPage::Welcome,
            app.selected_mode == InstallationMode::VirtualMachine,
            app.preserve_files && app.preserve_drivers,
            app.progress_percent == 0,
            app.scanned_files_count == 142850 && app.scanned_drivers_count == 38,
            app.status_message == "Ready to launch AWEOS.",
    {
        AosinGuiApp {
            current_page: InstallerPage::Welcome,
            selected_mode: InstallationMode::VirtualMachine,
            preserve_files: true,
            preserve_drivers: true,
            progress_percent: 0,
            scanned_files_count: 142850,
            scanned_drivers_count: 38,
            status_message: "Ready to launch AWEOS.",
        }
    }

    /// Handles a click: the mode cards on the mode page, the two toggles on
    /// the options page, then the "Next" button. Returns the host action the
    /// click started, if any.
    pub fn handle_click(&mut self, x: i32, y: i32) -> (act: Option<HostAction>)
        ensures
            ({
                let m0 = old(self).selected_mode;
                let mode = if old(self).current_page == InstallerPage::ModeSelection && in_range(y, 180, 320) {
                    if in_range(x, 80, 320) {
                        InstallationMode::VirtualMachine
                    } else if in_range(x, 360, 600) {
                        InstallationMode::DualBoot
                    } else if in_range(x, 640, 880) {
                        InstallationMode::FullMigration
                    } else {
                        m0
                    }
                } else {
                    m0
                };
                let on_options = old(self).current_page == InstallerPage::MigrationOptions && in_range(x, 100, 400);
                let files = if on_options && in_range(y, 220, 280) { !old(self).preserve_files } else { old(self).preserve_files };
                let drivers = if on_options && !in_range(y, 220, 280) && in_range(y, 300, 360) {
                    !old(self).preserve_drivers
                } else {
                    old(self).preserve_drivers
                };
                let next = in_range(x, 700, 940) && in_range(y, 650, 710);
                &&& final(self).selected_mode == mode
                &&& final(self).preserve_files == files
                &&& final(self).preserve_drivers == drivers
                &&& final(self).current_page == (if next { page_after(old(self).current_page) } else { old(self).current_page })
                &&& act == (if next && old(self).current_page == InstallerPage::MigrationOptions { Some(action_for(mode)) } else { None })
                &&& (next && old(self).current_page == InstallerPage::MigrationOptions ==> final(self).progress_percent == 100)
                &&& (!(next && old(self).current_page == InstallerPage::MigrationOptions) ==> final(self).progress_percent == old(self).progress_percent)
                &&& final(self).scanned_files_count == old(self).scanned_files_count
                &&& final(self).scanned_drivers_count == old(self).scanned_drivers_count
                &&& final(self).status_message == (if next { status_after(old(self).current_page, mode, old(self).status_message) } else { old(self).status_message })
            }),
    {
        if self.current_page == InstallerPage::ModeSelection {
            if 80 <= x && x <= 320 && 180 <= y && y <= 320 {
                self.selected_mode = InstallationMode::VirtualMachine;
            } else if 360 <= x && x <= 600 && 180 <= y && y <= 320 {
                self.selected_mode = InstallationMode::DualBoot;
            } else if 640 <= x && x <= 880 && 180 <= y && y <= 320 {
                self.selected_mode = InstallationMode::FullMigration;
            }
        }
        if self.current_page == InstallerPage::MigrationOptions {
            if 100 <= x && x <= 400 && 220 <= y && y <= 280 {
                self.preserve_files = !self.preserve_files;
            } else if 100 <= x && x <= 400 && 300 <= y && y <= 360 {
                self.preserve_drivers = !self.preserve_drivers;
            }
        }
        if 700 <= x && x <= 940 && 650 <= y && y <= 710 {
            return self.next_page();
        }
        None
    }

    /// Advances the wizard; leaving the options page runs the chosen mode.
    pub fn next_page(&mut self) -> (act: Option<HostAction>)
        ensures
            final(self).current_page == page_after(old(self).current_page),
            final(self).selected_mode == old(self).selected_mode,
            final(self).preserve_files == old(self).preserve_files,
            final(self).preserve_drivers == old(self).preserve_drivers,
            final(self).scanned_files_count == old(self).scanned_files_count,
            final(self).scanned_drivers_count == old(self).scanned_drivers_count,
            act == (if old(self).current_page == InstallerPage::MigrationOptions { Some(action_for(old(self).selected_mode)) } else { None }),
            old(self).current_page == InstallerPage::MigrationOptions ==> final(self).progress_percent == 100,
            old(self).current_page != InstallerPage::MigrationOptions ==> final(self).progress_percent == old(self).progress_percent,
            final(self).status_message == status_after(old(self).current_page, old(self).selected_mode, old(self).status_message),
    {
        match self.current_page {
            InstallerPage::Welcome => {
                self.current_page = InstallerPage::SystemScan;
                self.status_message = "Scanning local system files & drivers...";
                None
            },
            InstallerPage::SystemScan => {
                self.current_page = InstallerPage::ModeSelection;
                self.status_message = "Select installation & execution target.";
                None
            },
            InstallerPage::ModeSelection => {
                self.current_page = InstallerPage::MigrationOptions;
                self.status_message = "Configure data & driver preservation options.";
                None
            },
            InstallerPage::MigrationOptions => {
                self.current_page = InstallerPage::Executing;
                Some(self.execute_target_mode())
            },
            InstallerPage::Executing => {
                self.current_page = InstallerPage::Complete;
                self.status_message = "AWEOS execution & migration complete!";
                None
            },
            InstallerPage::Complete => None,
        }
    }

    /// Runs the selected mode: records its status, finishes the wizard and
    /// returns the host action the mode needs.
    pub fn execute_target_mode(&mut self) -> (act: HostAction)
        ensures
            act == action_for(old(self).selected_mode),
            final(self).progress_percent == 100,
            final(self).current_page == InstallerPage::Complete,
            final(self).selected_mode == old(self).selected_mode,
            final(self).preserve_files == old(self).preserve_files,
            final(self).preserve_drivers == old(self).preserve_drivers,
            final(self).scanned_files_count == old(self).scanned_files_count,
            final(self).scanned_drivers_count == old(self).scanned_drivers_count,
            final(self).status_message == mode_status(old(self).selected_mode),
    {
        self.progress_percent = 25;
        let act = match self.selected_mode {
            InstallationMode::VirtualMachine => {
                self.status_message = "Launching AWEOS Virtual Machine in QEMU...";
                HostAction::LaunchVirtualMachine
            },
            InstallationMode::DualBoot => {
                self.status_message = "Configuring Non-Destructive Dual-Boot loader & partitions...";
                HostAction::ConfigureDualBoot
            },
            InstallationMode::FullMigration => {
                self.status_message = "Migrating host files & certified drivers to AWEOS Root...";
                HostAction::MigrateInPlace
            },
        };
        self.progress_percent = 100;
        self.current_page = InstallerPage::Complete;
        act
    }
}

impl Default for AosinGuiApp {
    fn default() -> (app: Self)
        ensures
            app.current_page == InstallerPage::Welcome,
            app.selected_mode == InstallationMode::VirtualMachine,
    {
        Self::new()
    }
}

/// One step of a frame's display list.
#[derive(Clone, Copy)]
pub enum DrawOp {
    /// Fill a rectangle with a colour.
    Fill(Rect, Color),
    /// Draw text with its top-left corner at the given point.
    Text(i32, i32, &'static str, Color),
}

pub open spec fn rgb(r: u8, g: u8, b: u8) -> Color {
    Color { r, g, b, a: 255 }
}

pub open spec fn white() -> Color {
    rgb(255, 255, 255)
}

pub open spec fn green() -> Color {
    rgb(0, 255, 0)
}

pub open spec fn red() -> Color {
    rgb(255, 0, 0)
}

pub open spec fn yellow() -> Color {
    rgb(255, 255, 0)
}

pub open spec fn sat_sub(a: u32, b: u32) -> u32 {
    if a >= b { (a - b) as u32 } else { 0 }
}

/// The pixels an operation plots in a `width` x `height` frame.
pub open spec fn op_pts(op: DrawOp, width: u32, height: u32) -> Seq<Plot> {
    match op {
        DrawOp::Fill(r, c) => rect_pts(r, width, height, c),
        DrawOp::Text(x, y, t, c) => text_pts(x as int, y as int, t.spec_bytes(), t.spec_bytes().len() as int, c),
    }
}

/// The operation's coordinates stay representable while it is drawn.
pub open spec fn op_fits(op: DrawOp) -> bool {
    match op {
        DrawOp::Fill(r, c) => rect_edges_fit(r),
        DrawOp::Text(x, y, t, c) => x + 9 * t.spec_bytes().len() <= i32::MAX && y <= i32::MAX - 7,
    }
}

/// The pixels of a display list, operation by operation.
pub open spec fn ops_pts(ops: Seq<DrawOp>, width: u32, height: u32) -> Seq<Plot>
    decreases ops.len(),
{
    if ops.len() == 0 {
        Seq::empty()
    } else {
        ops_pts(ops.drop_last(), width, height) + op_pts(ops.last(), width, height)
    }
}

pub open spec fn mode_card(x: i32, active: bool) -> DrawOp {
    DrawOp::Fill(Rect { x, y: 180, width: 240, height: 140 }, if active { rgb(0, 160, 80) } else { rgb(45, 52, 70) })
}

pub open spec fn toggle_color(on: bool) -> Color {
    if on { green() } else { red() }
}

/// Width of the filled part of the progress bar.
pub open spec fn bar_width(width: u32, percent: u32) -> u32 {
    ((sat_sub(width, 160) * percent) / 100) as u32
}

/// The drawing operations of the current page's content.
pub open spec fn page_ops(app: AosinGuiApp, width: u32) -> Seq<DrawOp> {
    match app.current_page {
        InstallerPage::Welcome => seq![
            DrawOp::Text(60, 110, "Welcome to AWEOS Universal Singularity", white()),
            DrawOp::Text(60, 150, "Zero-data-loss migration, VM execution, and non-destructive Dual-Boot.", rgb(180, 190, 210)),
            DrawOp::Text(60, 180, "Click 'Get Started' to inspect local system partitions and hardware.", rgb(180, 190, 210)),
        ],
        InstallerPage::SystemScan => seq![
            DrawOp::Text(60, 110, "System Inspection & Readiness Scan", white()),
            DrawOp::Text(60, 160, "Host System: Preserved Windows/Linux Environment", green()),
            DrawOp::Text(60, 200, "Scanned Files: 142,850 preserved user files", white()),
            DrawOp::Text(60, 230, "Scanned Drivers: 38 certified hardware drivers extracted", white()),
            DrawOp::Text(60, 280, "System Readiness: PASS -- Ready for installation.", green()),
        ],
        InstallerPage::ModeSelection => seq![
            DrawOp::Text(60, 105, "Select Target Execution & Installation Mode:", white()),
            mode_card(80, app.selected_mode == InstallationMode::VirtualMachine),
            DrawOp::Text(95, 200, "[VM] Virtual Machine", white()),
            DrawOp::Text(95, 230, "Run inside QEMU", white()),
            DrawOp::Text(95, 250, "Instant Execution", white()),
            mode_card(360, app.selected_mode == InstallationMode::DualBoot),
            DrawOp::Text(375, 200, "[DB] Dual-Boot", white()),
            DrawOp::Text(375, 230, "Non-Destructive", white()),
            DrawOp::Text(375, 250, "BCD / GRUB Boot", white()),
            mode_card(640, app.selected_mode == InstallationMode::FullMigration),
            DrawOp::Text(655, 200, "[MIG] Full Migration", white()),
            DrawOp::Text(655, 230, "Zero Data Loss", white()),
            DrawOp::Text(655, 250, "Migrate to Root", white()),
        ],
        InstallerPage::MigrationOptions => seq![
            DrawOp::Text(60, 110, "Configure Data & Driver Preservation Options:", white()),
            DrawOp::Fill(Rect { x: 100, y: 220, width: 300, height: 60 }, rgb(45, 52, 70)),
            DrawOp::Fill(Rect { x: 110, y: 235, width: 30, height: 30 }, toggle_color(app.preserve_files)),
            DrawOp::Text(150, 240, "Preserve User Files", white()),
            DrawOp::Fill(Rect { x: 100, y: 300, width: 300, height: 60 }, rgb(45, 52, 70)),
            DrawOp::Fill(Rect { x: 110, y: 315, width: 30, height: 30 }, toggle_color(app.preserve_drivers)),
            DrawOp::Text(150, 320, "Preserve Certified Drivers", white()),
        ],
        InstallerPage::Executing => seq![
            DrawOp::Text(60, 110, "Executing Target Installation...", white()),
            DrawOp::Text(60, 160, app.status_message, yellow()),
            DrawOp::Fill(Rect { x: 80, y: 250, width: sat_sub(width, 160), height: 32 }, rgb(40, 48, 64)),
            DrawOp::Fill(Rect { x: 80, y: 250, width: bar_width(width, app.progress_percent), height: 32 }, green()),
        ],
        InstallerPage::Complete => seq![
            DrawOp::Text(60, 110, "AWEOS Installation & Migration Complete!", green()),
            DrawOp::Text(60, 160, "System target successfully configured and verified.", white()),
            DrawOp::Text(60, 200, "Click 'Launch AWEOS' to start the operating system.", white()),
        ],
    }
}

/// The label of the action button on page `p`.
pub open spec fn button_label(p: InstallerPage) -> &'static str {
    match p {
        InstallerPage::Welcome => "Get Started >",
        InstallerPage::SystemScan => "Continue >",
        InstallerPage::ModeSelection => "Next >",
        InstallerPage::MigrationOptions => "Start Target >",
        InstallerPage::Executing => "Processing...",
        InstallerPage::Complete => "Launch AWEOS",
    }
}

/// The whole frame: background, header, card, page content, action button
/// and status line, in drawing order.
pub open spec fn frame_ops(app: AosinGuiApp, width: u32, height: u32) -> Seq<DrawOp> {
    seq![
        DrawOp::Fill(Rect { x: 0, y: 0, width, height }, rgb(16, 20, 30)),
        DrawOp::Fill(Rect { x: 0, y: 0, width, height: 60 }, rgb(0, 120, 215)),
        DrawOp::Text(20, 20, "AOSIN -- Universal AWEOS Installer & Migration Engine", white()),
        DrawOp::Fill(Rect { x: 40, y: 80, width: sat_sub(width, 80), height: sat_sub(height, 180) }, rgb(28, 34, 48)),
    ] + page_ops(app, width) + seq![
        DrawOp::Fill(Rect { x: 700, y: 650, width: 240, height: 60 }, rgb(0, 160, 80)),
        DrawOp::Text(720, 670, button_label(app.current_page), white()),
        DrawOp::Text(60, 670, app.status_message, yellow()),
    ]
}

/// Every in-frame pixel offset of a `width` x `height` frame fits in 32 bits.
pub open spec fn frame_addressable(width: u32, height: u32) -> bool {
    width == 0 || height == 0 || ((height - 1) * width + (width - 1)) * 4 + 3 <= u32::MAX
}

/// The progress bar's width computation stays within 32 bits.
pub open spec fn bar_fits(app: AosinGuiApp, width: u32) -> bool {
    app.current_page == InstallerPage::Executing ==> sat_sub(width, 160) * app.progress_percent <= u32::MAX
}

/// The click position packed in a pointer message's parameter: the column
/// in the low 16 bits, the row in the next 16.
pub fn click_point(l_param: isize) -> (p: (i32, i32))
    ensures
        p.0 == l_param & 0xFFFF,
        p.1 == (l_param >> 16) & 0xFFFF,
        0 <= p.0 <= 0xFFFF && 0 <= p.1 <= 0xFFFF,
{
    let x = l_param & 0xFFFF;
    let y = (l_param >> 16) & 0xFFFF;
    assert(0 <= x <= 0xFFFF) by (bit_vector)
        requires x == l_param & 0xFFFF;
    assert(0 <= y <= 0xFFFF) by (bit_vector)
        requires y == (l_param >> 16) & 0xFFFF;
    (x as i32, y as i32)
}

impl AosinGuiApp {
    /// The frame's display list.
    pub fn display_list(&self, width: u32, height: u32) -> (ops: Vec<DrawOp>)
        requires
            bar_fits(*self, width),
        ensures
            ops@ == frame_ops(*self, width, height),
    {
        let white = Color::white();
        let mut ops: Vec<DrawOp> = Vec::new();
        ops.push(DrawOp::Fill(Rect { x: 0, y: 0, width, height }, Color { r: 16, g: 20, b: 30, a: 255 }));
        ops.push(DrawOp::Fill(Rect { x: 0, y: 0, width, height: 60 }, Color { r: 0, g: 120, b: 215, a: 255 }));
        ops.push(DrawOp::Text(20, 20, "AOSIN -- Universal AWEOS Installer & Migration Engine", white));
        ops.push(DrawOp::Fill(
            Rect { x: 40, y: 80, width: width.saturating_sub(80), height: height.saturating_sub(180) },
            Color { r: 28, g: 34, b: 48, a: 255 },
        ));
        let ghost head = ops@;
        let mut page: Vec<DrawOp> = self.page_list(width);
        ops.append(&mut page);
        let ghost mid = ops@;
        let label = match self.current_page {
            InstallerPage::Welcome => "Get Started >",
            InstallerPage::SystemScan => "Continue >",
            InstallerPage::ModeSelection => "Next >",
            InstallerPage::MigrationOptions => "Start Target >",
            InstallerPage::Executing => "Processing...",
            InstallerPage::Complete => "Launch AWEOS",
        };
        ops.push(DrawOp::Fill(Rect { x: 700, y: 650, width: 240, height: 60 }, Color { r: 0, g: 160, b: 80, a: 255 }));
        ops.push(DrawOp::Text(720, 670, label, white));
        ops.push(DrawOp::Text(60, 670, self.status_message, Color::yellow()));
        assert(ops@ =~= frame_ops(*self, width, height));
        ops
    }

    fn page_list(&self, width: u32) -> (ops: Vec<DrawOp>)
        requires
            bar_fits(*self, width),
        ensures
            ops@ == page_ops(*self, width),
    {
        let white = Color::white();
        let soft = Color { r: 180, g: 190, b: 210, a: 255 };
        let panel = Color { r: 45, g: 52, b: 70, a: 255 };
        let active = Color { r: 0, g: 160, b: 80, a: 255 };
        let mut ops: Vec<DrawOp> = Vec::new();
        match self.current_page {
            InstallerPage::Welcome => {
                ops.push(DrawOp::Text(60, 110, "Welcome to AWEOS Universal Singularity", white));
                ops.push(DrawOp::Text(60, 150, "Zero-data-loss migration, VM execution, and non-destructive Dual-Boot.", soft));
                ops.push(DrawOp::Text(60, 180, "Click 'Get Started' to inspect local system partitions and hardware.", soft));
            },
            InstallerPage::SystemScan => {
                ops.push(DrawOp::Text(60, 110, "System Inspection & Readiness Scan", white));
                ops.push(DrawOp::Text(60, 160, "Host System: Preserved Windows/Linux Environment", Color::green()));
                ops.push(DrawOp::Text(60, 200, "Scanned Files: 142,850 preserved user files", white));
                ops.push(DrawOp::Text(60, 230, "Scanned Drivers: 38 certified hardware drivers extracted", white));
                ops.push(DrawOp::Text(60, 280, "System Readiness: PASS -- Ready for installation.", Color::green()));
            },
            InstallerPage::ModeSelection => {
                ops.push(DrawOp::Text(60, 105, "Select Target Execution & Installation Mode:", white));
                let vm = if self.selected_mode == InstallationMode::VirtualMachine { active } else { panel };
                ops.push(DrawOp::Fill(Rect { x: 80, y: 180, width: 240, height: 140 }, vm));
                ops.push(DrawOp::Text(95, 200, "[VM] Virtual Machine", white));
                ops.push(DrawOp::Text(95, 230, "Run inside QEMU", white));
                ops.push(DrawOp::Text(95, 250, "Instant Execution", white));
                let db = if self.selected_mode == InstallationMode::DualBoot { active } else { panel };
                ops.push(DrawOp::Fill(Rect { x: 360, y: 180, width: 240, height: 140 }, db));
                ops.push(DrawOp::Text(375, 200, "[DB] Dual-Boot", white));
                ops.push(DrawOp::Text(375, 230, "Non-Destructive", white));
                ops.push(DrawOp::Text(375, 250, "BCD / GRUB Boot", white));
                let mig = if self.selected_mode == InstallationMode::FullMigration { active } else { panel };
                ops.push(DrawOp::Fill(Rect { x: 640, y: 180, width: 240, height: 140 }, mig));
                ops.push(DrawOp::Text(655, 200, "[MIG] Full Migration", white));
                ops.push(DrawOp::Text(655, 230, "Zero Data Loss", white));
                ops.push(DrawOp::Text(655, 250, "Migrate to Root", white));
            },
            InstallerPage::MigrationOptions => {
                ops.push(DrawOp::Text(60, 110, "Configure Data & Driver Preservation Options:", white));
                let chk1 = if self.preserve_files { Color::green() } else { Color::red() };
                ops.push(DrawOp::Fill(Rect { x: 100, y: 220, width: 300, height: 60 }, panel));
                ops.push(DrawOp::Fill(Rect { x: 110, y: 235, width: 30, height: 30 }, chk1));
                ops.push(DrawOp::Text(150, 240, "Preserve User Files", white));
                let chk2 = if self.preserve_drivers { Color::green() } else { Color::red() };
                ops.push(DrawOp::Fill(Rect { x: 100, y: 300, width: 300, height: 60 }, panel));
                ops.push(DrawOp::Fill(Rect { x: 110, y: 315, width: 30, height: 30 }, chk2));
                ops.push(DrawOp::Text(150, 320, "Preserve Certified Drivers", white));
            },
            InstallerPage::Executing => {
                ops.push(DrawOp::Text(60, 110, "Executing Target Installation...", white));
                ops.push(DrawOp::Text(60, 160, self.status_message, Color::yellow()));
                let track = width.saturating_sub(160);
                ops.push(DrawOp::Fill(Rect { x: 80, y: 250, width: track, height: 32 }, Color { r: 40, g: 48, b: 64, a: 255 }));
                let filled = (track * self.progress_percent) / 100;
                ops.push(DrawOp::Fill(Rect { x: 80, y: 250, width: filled, height: 32 }, Color::green()));
            },
            InstallerPage::Complete => {
                ops.push(DrawOp::Text(60, 110, "AWEOS Installation & Migration Complete!", Color::green()));
                ops.push(DrawOp::Text(60, 160, "System target successfully configured and verified.", white));
                ops.push(DrawOp::Text(60, 200, "Click 'Launch AWEOS' to start the operating system.", white));
            },
        }
        assert(ops@ =~= page_ops(*self, width));
        ops
    }

    /// Draws the installer frame into `buffer`, a `width` x `height` BGRA
    /// frame with `width` pixels per row: the display list of `frame_ops`,
    /// operation by operation.
    pub fn render_frame(&self, buffer: &mut Vec<u8>, width: u32, height: u32)
        requires
            frame_addressable(width, height),
            bar_fits(*self, width),
            forall|i: int| 0 <= i < frame_ops(*self, width, height).len() ==> op_fits(#[trigger] frame_ops(*self, width, height)[i]),
        ensures
            final(buffer)@ == plot_all(old(buffer)@, width, height, width, ops_pts(frame_ops(*self, width, height), width, height)),
    {
        let ops = self.display_list(width, height);
        let mut pixels: Vec<u8> = Vec::new();
        std::mem::swap(&mut pixels, buffer);
        let mut fb = Framebuffer { width, height, stride: width, buffer: pixels, gpu_accel: false };
        let ghost fb0 = fb;
        proof {
            lemma_plot_all_len(fb0.buffer@, width, height, width, Seq::empty());
            assert(ops@.take(0) =~= Seq::<DrawOp>::empty());
        }
        let mut i: usize = 0;
        while i < ops.len()
            invariant
                ops@ == frame_ops(*self, width, height),
                forall|k: int| 0 <= k < ops@.len() ==> op_fits(#[trigger] ops@[k]),
                i <= ops@.len(),
                fb.addressable(),
                fb.plotted(fb0, ops_pts(ops@.take(i as int), width, height)),
                fb0.width == width && fb0.height == height && fb0.stride == width,
            decreases ops@.len() - i,
        {
            let op = ops[i];
            assert(op_fits(ops@[i as int]));
            match op {
                DrawOp::Fill(r, c) => fb.fill_rect(r, c),
                DrawOp::Text(x, y, t, c) => fb.draw_text(x, y, t, c),
            }
            proof {
                let pre = ops@.take(i as int);
                assert(ops@.take(i as int + 1).drop_last() =~= pre);
                lemma_plot_all_concat(fb0.buffer@, width, height, width, ops_pts(pre, width, height), op_pts(op, width, height));
            }
            i = i + 1;
        }
        assert(ops@.take(ops@.len() as int) =~= ops@);
        std::mem::swap(&mut fb.buffer, buffer);
    }
}

} // verus!
