//! Every text the window shows a person, in one place, so that its voice stays
//! the same as views come and go: it explains the mechanism, in sentence case,
//! without exclamation marks, and says plainly what a choice deletes.

use crate::grouping::{self, whole_percent};
use crate::tenths::{self, seconds};
use crate::text::{self, decimal, same, Chars};
use vstd::prelude::*;

verus! {

// ---------------------------------------------------------------------------
// Home (device-wide overview)
// ---------------------------------------------------------------------------

/// Home view title.
pub const HOME_TITLE: &'static str = "This machine's workshop";

/// Home view subtitle under the title; orients toward the sidebar and Ctrl+K.
pub const HOME_SUB: &'static str = "Every folder this machine syncs. Pick one from the sidebar, or press Ctrl+K to jump to any session or action.";

/// Home warning line, shown when `conflicts > 0` across sessions.
pub const HOME_CONFLICTS_NOTE: &'static str = "a session is holding preserved copies — open its Conflicts tab to decide what stays";

/// Section header for the create form.
pub const CREATE_TITLE: &'static str = "Create a session";

/// Body under CREATE_TITLE; what `init` actually does.
pub const CREATE_HINT: &'static str = "Point at a folder to make it a session. tazamun indexes what is inside and mints a tzm1 invite ticket you can hand to a collaborator.";

/// Section header for the join form.
pub const JOIN_TITLE: &'static str = "Join with a ticket";

/// Body under JOIN_TITLE; what `join` needs and does.
pub const JOIN_HINT: &'static str = "Paste a tzm1 invite into an empty folder. It fills as the index syncs from the peer who invited you. The ticket carries the session secret, so treat it like a key.";

/// Toast after a new (unregistered) folder is dropped on the window.
pub const DROP_TOAST_PREFILLED: &'static str = "folder loaded into the create form — press Create to turn it into a session";

// ---------------------------------------------------------------------------
// Sidebar
// ---------------------------------------------------------------------------

/// Sidebar section header above the session list.
pub const SESSIONS_SECTION: &'static str = "Sessions";

/// Sidebar empty title when the registry has no sessions.
pub const NO_SESSIONS_TITLE: &'static str = "no sessions here";

/// Sidebar empty hint beneath NO_SESSIONS_TITLE.
pub const NO_SESSIONS_HINT: &'static str = "create one from a folder or join with a ticket, both on Home";

/// Sidebar Home nav-card title.
pub const SIDEBAR_HOME_TITLE: &'static str = "Home";

/// Sidebar Home nav-card subtitle.
pub const SIDEBAR_HOME_SUB: &'static str = "every session on this device";

// ---------------------------------------------------------------------------
// Overview tab
// ---------------------------------------------------------------------------

/// Invite card caption above the ticket text/QR.
pub const INVITE_CAUTION: &'static str = "Share this ticket to bring in a collaborator. It carries the session secret, so anyone holding it can join — treat it like a key.";

/// Invite card when there is no ticket to show (`None` arm).
pub const INVITE_EMPTY: &'static str = "no invite to show — start the session to mint a fresh ticket";

// ---------------------------------------------------------------------------
// Files tab
// ---------------------------------------------------------------------------

/// Files empty-state title when the index carries no files.
pub const FILES_EMPTY_TITLE: &'static str = "Nothing tracked here";

/// Files empty-state hint; the lock/edit/unlock mechanism that lands a file
/// here.
pub const FILES_EMPTY_HINT: &'static str = "files land here once a publish has reached a peer. The path is lock, edit, unlock — releasing the lease is the publish";

/// Files list message when the filter matches nothing.
pub const FILES_FILTER_EMPTY: &'static str = "no files match that filter";

/// Mini-label shown in a file row while the session is stopped.
pub const FILES_STOPPED_ACTION: &'static str = "start the session to edit";

/// Mini-label shown in a version row while the session is stopped.
pub const VERSION_STOPPED_ACTION: &'static str = "start the session to act";

// ---------------------------------------------------------------------------
// Conflicts tab
// ---------------------------------------------------------------------------

/// Conflicts empty-state title.
pub const CONFLICTS_EMPTY_TITLE: &'static str = "No conflicts waiting";

/// Conflicts empty-state hint; the both-copies promise, kept.
pub const CONFLICTS_EMPTY_HINT: &'static str = "every preserved copy is resolved. When tazamun cannot safely pick a winner it keeps both here rather than overwrite, so nothing is waiting on you now";

/// Conflicts intro paragraph above the rows.
pub const CONFLICTS_INTRO: &'static str = "Each row is a copy tazamun set aside instead of overwriting it. Resolving a row is the only step here that deletes bytes, and only the ones you point it at.";

/// Confirm title for "keep theirs".
pub const CONFLICT_DISCARD_TITLE: &'static str = "Discard this preserved copy?";

/// Note shown when the session is stopped (resolution runs through the daemon).
pub const CONFLICTS_STOPPED_NOTE: &'static str = "start the session to resolve — every resolution runs through the daemon, so the lease and publish rules still hold";

// ---------------------------------------------------------------------------
// History tab
// ---------------------------------------------------------------------------

/// History empty-state title.
pub const HISTORY_EMPTY_TITLE: &'static str = "No versions recorded";

/// History empty-state hint while the session is running.
pub const HISTORY_EMPTY_HINT_RUNNING: &'static str = "a version is recorded every time a lease is released with changes — the first published edit starts the timeline";

/// History empty-state hint while the session is stopped.
pub const HISTORY_EMPTY_HINT_STOPPED: &'static str = "start the session to read its version history";

/// Confirm title for a restore.
pub const RESTORE_TITLE: &'static str = "Restore this version?";

// ---------------------------------------------------------------------------
// Audit tab
// ---------------------------------------------------------------------------

/// Audit empty-state title.
pub const AUDIT_EMPTY_TITLE: &'static str = "No audit events";

/// Audit empty-state hint.
pub const AUDIT_EMPTY_HINT: &'static str = "locks, publishes, restores, and quarantines on this folder are logged here — readable even while the session is stopped";

// ---------------------------------------------------------------------------
// Settings tab
// ---------------------------------------------------------------------------

/// Settings empty-state title when the daemon is not running.
pub const SETTINGS_NEED_DAEMON_TITLE: &'static str = "Settings need a running daemon";

/// Settings empty-state hint when the daemon is not running.
pub const SETTINGS_NEED_DAEMON_HINT: &'static str = "start the session to read and change its configuration — settings are served by the running daemon";

/// Caption under the "Live settings" section.
pub const LIVE_SECTION_NOTE: &'static str = "Changes here take hold the moment you press Apply and are written to state.json — no restart.";

/// Caption under the "Fixed until restart" section.
pub const FIXED_SECTION_NOTE: &'static str = "these are read once at startup — change them with `tazamun config set` or `tazamun setup`, then restart the session for it to take hold";

/// Caption above the peer-naming form; names are local only.
pub const PEERS_NAME_HINT: &'static str = "Give a peer a name you will recognize. It is stored on this device only — it never leaves and never reaches the peer.";

// ---------------------------------------------------------------------------
// Toasts (worker functions)
// ---------------------------------------------------------------------------

/// Toast after copying the invite.
pub const TOAST_TICKET_COPIED: &'static str = "ticket copied to the clipboard";

/// Toast after copying the folder path.
pub const TOAST_PATH_COPIED: &'static str = "folder path copied to the clipboard";

/// Toast on a successful GUI-hosted start.
pub const TOAST_STARTED_HOSTED: &'static str = "started — hosted in this window, and stopped cleanly when you close it";

/// Toast on a successful stop.
pub const TOAST_STOPPED: &'static str = "session stopped";

/// Toast when shutdown exceeds the bounded timeout.
pub const TOAST_STOP_TIMEOUT: &'static str = "stop timed out — the actor did not answer in time, so the session was dropped rather than left half-running";

/// Toast when a daemon already owns this folder.
pub const TOAST_ALREADY_RUNNING: &'static str = "a daemon is already running for this folder";

/// Toast when nothing is running for this folder.
pub const TOAST_NOT_RUNNING: &'static str = "no daemon is running for this folder";

/// Toast when a live supervisor accepts a pause.
pub const TOAST_PAUSED_LIVE: &'static str = "paused — the supervisor is holding this session";

/// Toast when a live supervisor accepts a resume.
pub const TOAST_RESUMED_LIVE: &'static str = "resumed — syncing again";

/// Toast on a folder that is not a session.
pub const TOAST_NOT_SESSION_FOLDER: &'static str = "not a session folder — nothing to pause here";

// ---------------------------------------------------------------------------
// Command palette (Ctrl+K)
// ---------------------------------------------------------------------------

/// Placeholder for the palette input.
pub const PALETTE_HINT: &'static str = "jump to a session, start or stop one, or open a tab";

// ---------------------------------------------------------------------------
// First light (zero-session onboarding)
// ---------------------------------------------------------------------------

/// First-light panel title when no sessions exist.
pub const FL_TITLE: &'static str = "First light";

/// First-light subtitle under the title.
pub const FL_SUB: &'static str = "Three steps and this machine is part of a session. Nothing leaves it until you publish, and nothing arrives unverified.";

/// Step 1 title (hosts the create/join forms).
pub const FL_STEP1_TITLE: &'static str = "Begin";

/// Step 1 hint above the forms.
pub const FL_STEP1_HINT: &'static str = "point at a folder to create a session, or paste a ticket to join one";

/// Step 2 title (future step).
pub const FL_STEP2_TITLE: &'static str = "Invite";

/// Step 2 hint.
pub const FL_STEP2_HINT: &'static str = "the session mints a tzm1 ticket — hand it to a collaborator like a key";

/// Step 3 title (future step).
pub const FL_STEP3_TITLE: &'static str = "Sync, truthfully";

/// Step 3 hint — the Golden Invariant in one breath.
pub const FL_STEP3_HINT: &'static str = "edits travel under leases; anything ambiguous keeps both copies and says so";

// ---------------------------------------------------------------------------
// Field hints
// ---------------------------------------------------------------------------

/// Placeholder in the create-session path field.
pub const HINT_FOLDER: &'static str = "path to a folder";

/// Placeholder in the join path field.
pub const HINT_EMPTY_FOLDER: &'static str = "path to an empty folder";

/// Placeholder in the ticket field.
pub const HINT_TICKET: &'static str = "paste a tzm1 ticket";

/// Placeholder in the Files search field.
pub const HINT_FILTER: &'static str = "filter by name";

/// Placeholder in the peer-id field (Settings).
pub const HINT_PEER_ID: &'static str = "peer id, a prefix is enough";

/// Placeholder in the peer-name field (Settings).
pub const HINT_PEER_NAME: &'static str = "a name you will recognize";

/// Placeholder in the version tag field.
pub const HINT_TAG: &'static str = "name this version";

// ---------------------------------------------------------------------------
// Files ordering
// ---------------------------------------------------------------------------

// ---------------------------------------------------------------------------
// Conflict scales (the balance drawn on each conflict card)
// ---------------------------------------------------------------------------

/// Left pan title: the copy tazamun set aside.
pub const BAL_KEPT_TITLE: &'static str = "preserved copy";

/// Right pan title: what is currently synced at that path.
pub const BAL_LIVE_TITLE: &'static str = "synced version";

/// Right pan time line — the synced side has no quarantine moment.
pub const BAL_LIVE_WHEN: &'static str = "in the folder now";

/// Right pan note when an indexed file exists at the path.
pub const BAL_LIVE_NOTE: &'static str = "this is what your peers hold today";

/// Right pan note when nothing is indexed at the path.
pub const BAL_LIVE_MISSING: &'static str = "nothing is indexed at this path, so only the copy holds these bytes";

// ---------------------------------------------------------------------------
// Peers tab
// ---------------------------------------------------------------------------

/// Peers empty-state title.
pub const PEERS_EMPTY_TITLE: &'static str = "No peers on the wire";

/// Peers empty-state hint while the session is running.
pub const PEERS_EMPTY_RUNNING: &'static str = "hand someone the invite and their connection appears here, path and all";

/// Peers empty-state hint while the session is stopped.
pub const PEERS_EMPTY_STOPPED: &'static str = "start the session to dial your peers";

/// Intro line above the peer cards.
pub const PEERS_INTRO: &'static str = "One entry per device: how it is reached, its round-trip, and what has moved over the link. The trend is this window's own record, not the daemon's.";

// ---------------------------------------------------------------------------
// Drag-and-drop overlay + hover tooltips
// ---------------------------------------------------------------------------

/// Title on the drop overlay card.
pub const DROP_OVERLAY_TITLE: &'static str = "Drop a folder";

/// Hint on the drop overlay card.
pub const DROP_OVERLAY_HINT: &'static str = "creates a new session here, or opens it if this folder is already one";

/// Reject reason when the drop had no path.
pub const DROP_REJECT_NO_PATH: &'static str = "this drop carried no folder path";

/// Reject reason when a file, not a folder, was dropped.
pub const DROP_REJECT_NOT_FOLDER: &'static str = "drop a folder, not a single file";

/// Hover tooltip on the "Browse…" buttons.
pub const BROWSE_HOVER: &'static str = "open the system folder picker, or type the path by hand";

/// Hover tooltip on the "Open folder" button.
pub const OPEN_FOLDER_HOVER: &'static str = "reveal this folder in your file manager";

/// Hover tooltip on the "Copy path" button.
pub const COPY_PATH_HOVER: &'static str = "copy this folder's path to the clipboard";

/// Title of the `?` shortcuts sheet.
pub const SHORTCUTS_TITLE: &'static str = "Keys";

/// Subtitle under the shortcuts sheet title.
pub const SHORTCUTS_SUB: &'static str = "everything this window answers to";

/// Label above the text-size stepper in Settings.
pub const A11Y_TEXT_SIZE: &'static str = "Text size";

/// Hint under the text-size stepper in Settings.
pub const A11Y_TEXT_SIZE_HINT: &'static str = "scales every label in the window; Ctrl+0 puts it back";

/// Screen-reader label for the close button in the custom title bar.
pub const WIN_CLOSE: &'static str = "close window";

/// Screen-reader label for the maximize button when the window is restored.
pub const WIN_MAXIMIZE: &'static str = "maximize window";

/// Screen-reader label for the same button once the window is maximized.
pub const WIN_RESTORE: &'static str = "restore window";

/// Screen-reader label for the minimize button in the custom title bar.
pub const WIN_MINIMIZE: &'static str = "minimize window";

/// Label on the skip-to-content link, revealed only while it holds focus.
pub const SKIP_TO_CONTENT: &'static str = "skip to content";

/// Heading of the app-wide display preferences card on the Home screen.
pub const DISPLAY_TITLE: &'static str = "Display";

/// Screen-reader label for the text-size increase stepper.
pub const A11Y_BIGGER: &'static str = "larger text";

/// Screen-reader label for the text-size decrease stepper.
pub const A11Y_SMALLER: &'static str = "smaller text";

// ---------------------------------------------------------------------------
// Custody vocabulary
// ---------------------------------------------------------------------------

/// Custody column when this device holds the lease.
pub const CUSTODY_HELD_YOU: &'static str = "held · you";

/// Prefix for the custody column when another device holds the lease; followed
/// by the holder's short id or its label.
pub const CUSTODY_HELD_BY: &'static str = "held ·";

/// Custody column when nothing holds the path — the resting state.
pub const CUSTODY_FREE: &'static str = "free";

// ---------------------------------------------------------------------------
// Verbs
// ---------------------------------------------------------------------------

/// Take the exclusive lease on a path.
pub const ACTION_LOCK: &'static str = "Lock";

/// Give the lease back and publish what changed.
pub const ACTION_UNLOCK: &'static str = "Unlock";

/// Bring an older version back as the current one.
pub const ACTION_RESTORE: &'static str = "Restore";

/// Keep a version out of the reach of garbage collection.
pub const ACTION_PIN: &'static str = "Pin";

/// Release a pinned version.
pub const ACTION_UNPIN: &'static str = "Unpin";

/// Name a version.
pub const ACTION_TAG: &'static str = "Tag";

/// Retry a read that failed.
pub const ACTION_RETRY: &'static str = "Try again";

// ---------------------------------------------------------------------------
// Failed reads
// ---------------------------------------------------------------------------

/// Heading over a session whose detail could not be loaded.
pub const SESSION_LOAD_FAILED: &'static str = "This session could not be read";

/// Heading when the file list could not be read.
pub const FILES_FAILED: &'static str = "The file list could not be read";

/// Heading when the version history could not be read.
pub const HISTORY_FAILED: &'static str = "The version history could not be read";

/// Heading when the conflicts directory could not be read.
pub const CONFLICTS_FAILED: &'static str = "The preserved copies could not be read";

/// Heading when the audit ledger could not be read.
pub const AUDIT_FAILED: &'static str = "The audit ledger could not be read";

/// Heading when the peer list could not be read.
pub const PEERS_FAILED: &'static str = "The peer list could not be read";

/// Hint under the files register when a filter matches nothing.
pub const FILES_FILTER_EMPTY_HINT: &'static str = "clear the filter to see every tracked path";

// ---------------------------------------------------------------------------
// Conflict resolution
// ---------------------------------------------------------------------------

/// The safe resolution: restore the preserved copy beside the synced file.
pub const CONFLICT_KEEP_BOTH: &'static str = "Keep both";

/// Overwrite the synced file with the preserved copy, then delete the copy.
pub const CONFLICT_KEEP_MINE: &'static str = "Keep mine";

/// Delete the preserved copy and leave the synced file alone.
pub const CONFLICT_KEEP_THEIRS: &'static str = "Keep theirs";

/// Explains what `keep both` will do, shown beside the button.
pub const CONFLICT_KEEP_BOTH_NOTE: &'static str = "restores the preserved copy under a new name — nothing is overwritten and nothing is deleted";

/// Title of the confirm shown before `keep mine`.
pub const CONFLICT_MINE_TITLE: &'static str = "Overwrite the synced file?";

/// Verb on the `keep mine` confirm.
pub const CONFLICT_MINE_VERB: &'static str = "Overwrite and discard";

/// Heading over the conflict detail pane.
pub const CONFLICT_WEIGH_TITLE: &'static str = "Weigh the two copies";

/// Shown when the preserved copy has no recorded original path.
pub const CONFLICT_ORPHAN_NOTE: &'static str = "this copy's original path was never recorded, so it can only be restored under a new name";

/// Verb on the `keep theirs` confirm.
pub const CONFLICT_DISCARD_VERB: &'static str = "Discard the copy";

/// Tag on a peer reached over the local network.
pub const PEER_LAN: &'static str = "LAN";

/// Tag on a peer reached through a relay rather than directly.
pub const PEER_RELAY: &'static str = "relay";

// ---------------------------------------------------------------------------
// Appearance
// ---------------------------------------------------------------------------

/// Name of the palette setting.
pub const THEME_TITLE: &'static str = "Palette";

/// What the palette setting does.
pub const THEME_HINT: &'static str = "ink on a dark desk, ink on paper, or maximum separation";

/// Name of the register-density setting.
pub const DENSITY_TITLE: &'static str = "Density";

/// What the density setting does.
pub const DENSITY_HINT: &'static str = "how many entries a register fits on one screen";

/// Name of the motion setting.
pub const MOTION_TITLE: &'static str = "Motion";

/// What the motion setting does.
pub const MOTION_HINT: &'static str = "reveals, sweeps and the breathing seal can be turned off";

/// The option that keeps animation.
pub const MOTION_FULL: &'static str = "Full";

/// The option that removes it.
pub const MOTION_REDUCED: &'static str = "Reduced";

/// The verb that backs out of a dialog without doing anything.
pub const ACTION_CANCEL: &'static str = "Cancel";

// ---------------------------------------------------------------------------
// The three lease preconditions
// ---------------------------------------------------------------------------

/// Confirms the file is now writable, which is the fact the user needs.
pub const TOAST_LOCKED: &'static str = "locked — the file is writable until you unlock it";

/// Confirms the lease was given back and the bytes went out.
pub const TOAST_UNLOCKED: &'static str = "unlocked — your changes are published to every peer";

/// Dismisses the refusal panel.
pub const REFUSED_DISMISS: &'static str = "Dismiss";

/// Introduces the device currently holding the lease.
pub const REFUSED_HELD_BY: &'static str = "held by";

/// Introduces the peers the daemon consulted before refusing.
pub const REFUSED_PEERS: &'static str = "peers consulted";

/// Sends the user to the tab that answers a reachability refusal.
pub const REFUSED_SEE_PEERS: &'static str = "See peers";

/// Clears the refusal so the user can try the edit again.
pub const REFUSED_RETRY: &'static str = "Try again";

/// The enabled side of a two-state setting.
pub const TOGGLE_ON: &'static str = "on";

/// The disabled side of a two-state setting.
pub const TOGGLE_OFF: &'static str = "off";

// ---------------------------------------------------------------------------
// The standing statement
// ---------------------------------------------------------------------------

// ---------------------------------------------------------------------------
// The Overview's own vocabulary
// ---------------------------------------------------------------------------

/// Heading over the session's fixed facts.
pub const OVERVIEW_STATE: &'static str = "This session";

/// Heading over transfers and events.
pub const OVERVIEW_MOVEMENT: &'static str = "Movement";

/// Heading over the invite disclosure.
pub const OVERVIEW_INVITE: &'static str = "Bring someone in";

/// Row label: strict or easy.
pub const STATE_MODE: &'static str = "Mode";

/// Row label: the role this device joined as.
pub const STATE_ROLE: &'static str = "Your role";

/// Row label: how many paths are tracked.
pub const STATE_FILES: &'static str = "Tracked";

/// Row label: reachable peers over known peers.
pub const STATE_PEERS: &'static str = "Peers reachable";

/// Row label: preserved copies awaiting a decision.
pub const STATE_CONFLICTS: &'static str = "Preserved copies";

/// Strict checkout: one pen, handed over deliberately.
pub const MODE_STRICT: &'static str = "strict — one holder at a time";

/// Easy mode: local edits auto-publish.
pub const MODE_EASY: &'static str = "easy — local edits publish themselves";

/// Stand-in when the daemon has not reported a value.
pub const UNKNOWN: &'static str = "unknown";

/// Label before the invite role choice.
pub const INVITE_ROLE: &'static str = "Joins as";

/// Label before the invite expiry choice.
pub const INVITE_EXPIRY: &'static str = "Expires";

/// The role an unscoped invite grants.
pub const INVITE_ROLE_DEFAULT: &'static str = "editor";

/// Mints a ticket with the chosen scope.
pub const INVITE_MINT: &'static str = "Mint a ticket";

/// Copies the current ticket.
pub const INVITE_COPY: &'static str = "Copy ticket";

// ---------------------------------------------------------------------------
// Work in flight
// ---------------------------------------------------------------------------

/// Abandons an in-flight command at its next safe boundary.
pub const WORKING_CANCEL: &'static str = "Cancel";

/// Shown once a command has been running long enough to be worth remarking on.
pub const WORKING_SLOW: &'static str = "this is taking longer than usual";

/// Shown while a poll is outstanding but not yet late.
pub const REACH_SLOW: &'static str = "waiting for this session to answer";

/// Closes a report.
pub const REPORT_CLOSE: &'static str = "Close";

/// Copies a report's body.
pub const REPORT_COPY: &'static str = "Copy";

/// Opens the address a report names.
pub const REPORT_OPEN: &'static str = "Open";

/// Suspends syncing without stopping the daemon.
pub const ACTION_PAUSE: &'static str = "Pause";

/// Resumes a paused session.
pub const ACTION_RESUME: &'static str = "Resume";

// ---------------------------------------------------------------------------
// The session menu
// ---------------------------------------------------------------------------

/// Opens the session's less-used operations.
pub const MENU_MORE: &'static str = "More";

/// Runs the daemon's connectivity self-check.
pub const MENU_DOCTOR: &'static str = "Run diagnostics";

/// Starts the web dashboard and reports its address.
pub const MENU_DASHBOARD: &'static str = "Open the dashboard";

/// Drops unreferenced blobs.
pub const MENU_GC: &'static str = "Reclaim disk space";

/// Rotates the session secret.
pub const MENU_REKEY: &'static str = "Rotate the session key";

/// Title of the rekey confirm.
pub const REKEY_TITLE: &'static str = "Rotate this session's key?";

/// Verb on the rekey confirm.
pub const REKEY_VERB: &'static str = "Rotate the key";

/// Says exactly what rotating costs, because it is not reversible and it
/// invalidates what other people are holding.
pub const REKEY_BODY: &'static str = "Every existing invite stops working immediately, and every peer must be re-invited with a fresh ticket before it can sync again. This is the only way to revoke access from someone who already has a ticket. It cannot be undone.";

// ---------------------------------------------------------------------------
// Per-file operations
// ---------------------------------------------------------------------------

/// Joins the daemon's waitlist for a path someone else holds.
pub const ACTION_WAIT: &'static str = "Wait";

/// Explains what waiting does, since it is not obvious from one word.
pub const ACTION_WAIT_HOVER: &'static str = "join the queue for this file — it is taken for you as soon as the current holder releases it";

/// Renames a synced path under a lease.
pub const MENU_RENAME: &'static str = "Rename…";

/// Shows what changed against the newest kept version.
pub const MENU_DIFF: &'static str = "What changed";

/// Copies the relative path.
pub const MENU_COPY_PATH: &'static str = "Copy path";

/// Shown when a diff is asked for on a path with no history to compare against.
pub const DIFF_NO_VERSIONS: &'static str = "no kept version to compare against yet";

/// Title of the rename dialog.
pub const RENAME_TITLE: &'static str = "Rename this file";

/// Explains why renaming goes through the app rather than the file manager.
pub const RENAME_BODY: &'static str = "A rename in your file manager is half a delete, and the delete half is reverted by design. Renaming here takes the lease, moves the file and publishes the move as one act.";

/// Verb on the rename dialog.
pub const RENAME_VERB: &'static str = "Rename and publish";

// ---------------------------------------------------------------------------
// Pruning preserved copies
// ---------------------------------------------------------------------------

/// Label before the prune age choice.
pub const PRUNE_OLDER_THAN: &'static str = "Older than";

/// Verb on the prune control.
pub const PRUNE_VERB: &'static str = "Delete them";

/// Title of the prune confirm.
pub const PRUNE_TITLE: &'static str = "Delete these preserved copies?";

// ---------------------------------------------------------------------------
// The audit filters
// ---------------------------------------------------------------------------

/// Placeholder in the audit filter field.
pub const AUDIT_FILTER: &'static str = "filter by path, peer or detail";

/// The option that clears the kind filter.
pub const AUDIT_ALL_KINDS: &'static str = "all";

/// Shown when a filter matches no ledger entry.
pub const AUDIT_FILTER_EMPTY: &'static str = "No entry matches this filter";

/// What to do about it.
pub const AUDIT_FILTER_EMPTY_HINT: &'static str = "clear the filter to see the whole ledger";

// ---------------------------------------------------------------------------
// Machine upkeep
// ---------------------------------------------------------------------------

/// Heading over the machine-level section of Settings.
pub const MAINTENANCE_TITLE: &'static str = "This machine";

/// What the supervisor is for.
pub const SUPERVISOR_NOTE: &'static str = "The supervisor starts your sessions again after a reboot or a sign-out. Without it, syncing stops when this machine does and does not come back on its own.";

/// Installs the OS service.
pub const SUPERVISOR_INSTALL: &'static str = "Start sessions at login";

/// Removes it.
pub const SUPERVISOR_REMOVE: &'static str = "Stop doing that";

/// Title of the removal confirm.
pub const SUPERVISOR_REMOVE_TITLE: &'static str = "Remove the supervisor?";

/// Says what stops happening.
pub const SUPERVISOR_REMOVE_BODY: &'static str = "Your sessions will no longer start on their own after a reboot — you will have to open this window and start them by hand. Nothing syncing right now is interrupted.";

// ---------------------------------------------------------------------------
// Paging a large index
// ---------------------------------------------------------------------------

/// The previous page of a file query.
pub const PAGE_PREV: &'static str = "Previous";

/// The next page of a file query.
pub const PAGE_NEXT: &'static str = "Next";

// ---------------------------------------------------------------------------
// The menu bar
// ---------------------------------------------------------------------------

/// The head over the session menu.
pub const MENUBAR_SESSION: &'static str = "session";

/// The title of the session menu's page.
pub const MENUBAR_SESSION_TITLE: &'static str = "Session";

/// The head over the tools menu.
pub const MENUBAR_TOOLS: &'static str = "tools";

/// The title of the tools menu's page.
pub const MENUBAR_TOOLS_TITLE: &'static str = "Tools";

/// The head over the display menu.
pub const MENUBAR_DISPLAY: &'static str = "display";

/// The title of the display menu's page.
pub const MENUBAR_DISPLAY_TITLE: &'static str = "Display";

/// The head over the help menu.
pub const MENUBAR_HELP: &'static str = "help";

/// The title of the help menu's page.
pub const MENUBAR_HELP_TITLE: &'static str = "Help";

/// The head over the menus that a narrow bar folds away.
pub const MENUBAR_MORE: &'static str = "more";

/// The key that opens the bar, spoken by its first head.
pub const MENUBAR_KEY_HINT: &'static str = "press F10 to open the menu bar";

/// The section of the verbs that start and stop a session.
pub const MENUBAR_LIFECYCLE: &'static str = "lifecycle";

/// The section of the verbs on the session's folder.
pub const MENUBAR_FOLDER: &'static str = "folder";

/// The section of the operations on the open session.
pub const MENUBAR_THIS_SESSION: &'static str = "this session";

/// The section of the operations on this machine.
pub const MENUBAR_THIS_MACHINE: &'static str = "this machine";

/// The section of the palettes.
pub const MENUBAR_PALETTE: &'static str = "palette";

/// The section of the densities.
pub const MENUBAR_DENSITY: &'static str = "density";

/// The section of the motion settings.
pub const MENUBAR_MOTION: &'static str = "motion";

/// The section of the text size.
pub const MENUBAR_TEXT: &'static str = "text size";

/// The section of the keyboard sheet.
pub const MENUBAR_KEYBOARD: &'static str = "keyboard";

/// The section of the colophon.
pub const MENUBAR_ABOUT: &'static str = "about";

/// The section of the updates.
pub const MENUBAR_UPDATES: &'static str = "updates";

/// Refusal: no session is open.
pub const MENUBAR_NEEDS_SESSION: &'static str = "open a session first";

/// Refusal: the session is stopped.
pub const MENUBAR_NEEDS_RUNNING: &'static str = "start this session first";

/// Refusal of a start.
pub const MENUBAR_ALREADY_RUNNING: &'static str = "this session is already running";

/// Refusal of a stop.
pub const MENUBAR_NOT_RUNNING: &'static str = "this session is not running";

/// Refusal of a pause.
pub const MENUBAR_ALREADY_PAUSED: &'static str = "this session is already paused";

/// Refusal of a resume.
pub const MENUBAR_NOT_PAUSED: &'static str = "this session is not paused";

/// Refusal of a rename without a file.
pub const MENUBAR_NEEDS_FILE: &'static str = "mark a file in the Files tab first";

/// Refusal of a prune without preserved copies.
pub const MENUBAR_NO_CONFLICTS: &'static str = "no preserved copy is waiting here";

/// Refusal of larger text.
pub const MENUBAR_TEXT_AT_MAX: &'static str = "the text is at its largest";

/// Refusal of smaller text.
pub const MENUBAR_TEXT_AT_MIN: &'static str = "the text is at its smallest";

/// Refusal of a reset.
pub const MENUBAR_TEXT_AT_DEFAULT: &'static str = "the text is at its normal size";

/// Refusal of a second check.
pub const MENUBAR_UPDATE_BUSY: &'static str = "a check is already running";

/// Starts the session.
pub const MENU_START: &'static str = "Start";

/// Stops the session.
pub const MENU_STOP: &'static str = "Stop";

/// Shows the session's folder in the file manager.
pub const MENU_OPEN_FOLDER: &'static str = "Open the folder";

/// Copies the path of the session's folder.
pub const MENU_COPY_FOLDER: &'static str = "Copy the folder path";

/// Opens the confirm that deletes preserved copies.
pub const MENU_PRUNE: &'static str = "Delete old preserved copies…";

/// Steps the text scale up.
pub const MENU_TEXT_BIGGER: &'static str = "Larger";

/// Steps the text scale down.
pub const MENU_TEXT_SMALLER: &'static str = "Smaller";

/// Puts the text scale back.
pub const MENU_TEXT_RESET: &'static str = "Back to normal";

/// Opens the keyboard sheet.
pub const MENU_KEYS: &'static str = "Keyboard shortcuts";

/// Opens the colophon.
pub const MENU_ABOUT: &'static str = "About tazamun";

/// Asks whether a newer release exists.
pub const MENU_UPDATE_CHECK: &'static str = "Check for updates";

/// The same while a check runs.
pub const MENU_UPDATE_CHECKING: &'static str = "Checking for updates";

/// The note while a check runs.
pub const UPDATE_CHECKING_NOTE: &'static str = "asking for the latest release";

/// The age from which preserved copies are offered for deletion: a month.
pub const PRUNE_AGE_DEFAULT: u64 = 2_592_000_000;

/// The roles an invite can be scoped to.
pub fn invite_roles() -> (r: Vec<&'static str>)
    ensures
        text::slices(r@) == seq!["editor"@, "viewer"@, "archive"@],
{
    let mut r: Vec<&'static str> = Vec::new();
    r.push("editor");
    r.push("viewer");
    r.push("archive");
    proof {
        assert(text::slices(r@) =~= seq!["editor"@, "viewer"@, "archive"@]);
    }
    r
}

/// The texts of a list of choices and what each stands for.
pub open spec fn named<T>(v: Seq<(&'static str, T)>) -> Seq<(Chars, T)> {
    v.map_values(|c: (&'static str, T)| (c.0@, c.1))
}

/// The expiries offered for an invite, in milliseconds; `None` never expires.
pub fn invite_ttls() -> (r: Vec<(&'static str, Option<u64>)>)
    ensures
        named(r@) == seq![
            ("1 hour"@, Some(3_600_000u64)),
            ("1 day"@, Some(86_400_000u64)),
            ("7 days"@, Some(604_800_000u64)),
            ("never"@, None),
        ],
{
    let mut r: Vec<(&'static str, Option<u64>)> = Vec::new();
    r.push(("1 hour", Some(3_600_000)));
    r.push(("1 day", Some(86_400_000)));
    r.push(("7 days", Some(604_800_000)));
    r.push(("never", None));
    proof {
        assert(named(r@) =~= seq![
            ("1 hour"@, Some(3_600_000u64)),
            ("1 day"@, Some(86_400_000u64)),
            ("7 days"@, Some(604_800_000u64)),
            ("never"@, None),
        ]);
    }
    r
}

/// The ages offered for deleting preserved copies, in milliseconds.
pub fn prune_ages() -> (r: Vec<(&'static str, u64)>)
    ensures
        named(r@) == seq![
            ("7 days"@, 604_800_000u64),
            ("30 days"@, 2_592_000_000u64),
            ("90 days"@, 7_776_000_000u64),
        ],
{
    let mut r: Vec<(&'static str, u64)> = Vec::new();
    r.push(("7 days", 604_800_000));
    r.push(("30 days", 2_592_000_000));
    r.push(("90 days", 7_776_000_000));
    proof {
        assert(named(r@) =~= seq![
            ("7 days"@, 604_800_000u64),
            ("30 days"@, 2_592_000_000u64),
            ("90 days"@, 7_776_000_000u64),
        ]);
    }
    r
}

// ---------------------------------------------------------------------------
// Sentences
// ---------------------------------------------------------------------------

/// The banner over a list of files that is longer than what is shown of it.
pub fn files_truncated(shown: usize, total: usize) -> (r: String)
    ensures
        r@ == "showing the first "@ + text::dec(shown as nat) + " of "@ + text::dec(total as nat)
            + " files — a folder this large is paged for the view, the full set still syncs"@,
{
    let mut r: String = "showing the first ".to_owned();
    r.append(decimal(shown as u64).as_str());
    r.append(" of ");
    r.append(decimal(total as u64).as_str());
    r.append(" files — a folder this large is paged for the view, the full set still syncs");
    r
}

/// What deleting one preserved copy does.
pub fn conflict_discard_body(name: &str) -> (r: String)
    ensures
        r@ == "This deletes the quarantined copy "@ + name@
            + " and keeps the version currently synced. Nothing else is touched, and this one deletion cannot be undone."@,
{
    let mut r: String = "This deletes the quarantined copy ".to_owned();
    r.append(name);
    r.append(
        " and keeps the version currently synced. Nothing else is touched, and this one deletion cannot be undone.",
    );
    r
}

/// What bringing an older version back does.
pub fn restore_body(path: &str, n: u64, size_human: &str) -> (r: String)
    ensures
        r@ == path@ + " goes back to version "@ + text::dec(n as nat) + " ("@ + size_human@
            + "). The content it has now is pushed to history first, so the restore adds a version instead of losing one."@,
{
    let mut r: String = path.to_owned();
    r.append(" goes back to version ");
    r.append(decimal(n).as_str());
    r.append(" (");
    r.append(size_human);
    r.append(
        "). The content it has now is pushed to history first, so the restore adds a version instead of losing one.",
    );
    r
}

/// The toast for a pause or a resume that waits for the next start.
pub fn toast_paused_deferred(paused: bool) -> (r: String)
    ensures
        r@ == (if paused {
            "paused"@
        } else {
            "resumed"@
        }) + " — no supervisor is running, so this takes effect on the next `start --all`"@,
{
    let mut r: String = if paused {
        "paused".to_owned()
    } else {
        "resumed".to_owned()
    };
    r.append(" — no supervisor is running, so this takes effect on the next `start --all`");
    r
}

/// Why an edit is refused to a role that cannot take a lease.
pub open spec fn role_refusal(role: Chars) -> Chars {
    "this folder is joined as "@ + role
        + ", which cannot take a lease — rejoin with an editor invite to make changes here"@
}

/// Why an edit is refused to a role that cannot take a lease.
pub fn role_cannot_edit(role: &str) -> (r: String)
    ensures
        r@ == role_refusal(role@),
{
    let mut r: String = "this folder is joined as ".to_owned();
    r.append(role);
    r.append(", which cannot take a lease — rejoin with an editor invite to make changes here");
    r
}

/// Says that the versions shown are the most recent of more.
pub fn history_truncated(shown: usize, total: usize) -> (r: String)
    ensures
        r@ == "showing the "@ + text::dec(shown as nat) + " most recent of "@ + text::dec(
            total as nat,
        ) + " versions — use `tazamun log` for the full ledger"@,
{
    let mut r: String = "showing the ".to_owned();
    r.append(decimal(shown as u64).as_str());
    r.append(" most recent of ");
    r.append(decimal(total as u64).as_str());
    r.append(" versions — use `tazamun log` for the full ledger");
    r
}

/// Says that the entries shown are the most recent of more.
pub fn audit_truncated(shown: usize, total: usize) -> (r: String)
    ensures
        r@ == "showing the "@ + text::dec(shown as nat) + " most recent of "@ + text::dec(
            total as nat,
        ) + " entries — use `tazamun log` for the full ledger"@,
{
    let mut r: String = "showing the ".to_owned();
    r.append(decimal(shown as u64).as_str());
    r.append(" most recent of ");
    r.append(decimal(total as u64).as_str());
    r.append(" entries — use `tazamun log` for the full ledger");
    r
}

/// Says which bytes move and which are destroyed.
pub fn conflict_mine_body(target: &str, kept: &str) -> (r: String)
    ensures
        r@ == "The preserved copy is written over "@ + target@
            + " and published to every peer, replacing what they hold. The preserved copy ("@ + kept@
            + ") is then deleted. The version being replaced is pushed to history first, so it can be restored — but the preserved copy cannot. Keep both instead if you are unsure."@,
{
    let mut r: String = "The preserved copy is written over ".to_owned();
    r.append(target);
    r.append(" and published to every peer, replacing what they hold. The preserved copy (");
    r.append(kept);
    r.append(
        ") is then deleted. The version being replaced is pushed to history first, so it can be restored — but the preserved copy cannot. Keep both instead if you are unsure.",
    );
    r
}

/// The totals of a peer, and how long its direct path took to be found, in
/// milliseconds, where there is one.
pub fn peer_lifetime(up: &str, down: &str, ttd_ms: Option<u64>) -> (r: String)
    ensures
        ({
            let totals = "lifetime — sent "@ + up@ + ", received "@ + down@;
            r@ == match ttd_ms {
                Some(ms) => totals + "\ndirect path found in "@ + tenths::seconds_text(ms as nat)
                    + "s"@,
                None => totals,
            }
        }),
{
    let mut r: String = "lifetime — sent ".to_owned();
    r.append(up);
    r.append(", received ");
    r.append(down);
    match ttd_ms {
        Some(ms) => {
            r.append("\ndirect path found in ");
            r.append(seconds(ms).as_str());
            r.append("s");
        },
        None => {},
    }
    r
}

/// Which of the three conditions of a lease a word of the daemon's names.
#[derive(Clone, Copy, PartialEq, Eq, Debug, Structural)]
pub enum Precondition {
    /// Some peer must be reachable.
    Reachability,
    /// This copy must be the current one.
    Freshness,
    /// No other device may hold the file.
    Lease,
    /// None of the three: the role itself forbids edits.
    Role,
}

/// The condition that a word names.
pub open spec fn precondition_of(p: Chars) -> Precondition {
    if p == "REACHABILITY"@ {
        Precondition::Reachability
    } else if p == "FRESHNESS"@ {
        Precondition::Freshness
    } else if p == "LEASE"@ {
        Precondition::Lease
    } else {
        Precondition::Role
    }
}

fn read_precondition(p: &str) -> (r: Precondition)
    ensures
        r == precondition_of(p@),
{
    if same(p, "REACHABILITY") {
        Precondition::Reachability
    } else if same(p, "FRESHNESS") {
        Precondition::Freshness
    } else if same(p, "LEASE") {
        Precondition::Lease
    } else {
        Precondition::Role
    }
}

/// Names the condition that failed in the reader's terms.
pub fn precondition_title(p: &str) -> (r: &'static str)
    ensures
        r@ == match precondition_of(p@) {
            Precondition::Reachability => "No peer is reachable"@,
            Precondition::Freshness => "This copy is not up to date yet"@,
            Precondition::Lease => "Someone else holds the pen"@,
            Precondition::Role => "This folder does not allow edits"@,
        },
{
    match read_precondition(p) {
        Precondition::Reachability => "No peer is reachable",
        Precondition::Freshness => "This copy is not up to date yet",
        Precondition::Lease => "Someone else holds the pen",
        Precondition::Role => "This folder does not allow edits",
    }
}

/// Explains why the condition exists.
pub fn precondition_why(p: &str) -> (r: &'static str)
    ensures
        r@ == match precondition_of(p@) {
            Precondition::Reachability => "Strict checkout hands the pen to one device at a time. With no peer connected there is nobody to agree the handover, so edits are refused rather than risked."@,
            Precondition::Freshness => "Taking the pen on a copy that is behind would publish old bytes over newer ones. The lease waits until this device holds the current version."@,
            Precondition::Lease => "Exactly one device may hold a file at a time. The lease is released on unlock, or when it expires on its own."@,
            Precondition::Role => "This folder was joined with a role that cannot take a lease, so every edit path is refused here."@,
        },
{
    match read_precondition(p) {
        Precondition::Reachability => "Strict checkout hands the pen to one device at a time. With no peer connected there is nobody to agree the handover, so edits are refused rather than risked.",
        Precondition::Freshness => "Taking the pen on a copy that is behind would publish old bytes over newer ones. The lease waits until this device holds the current version.",
        Precondition::Lease => "Exactly one device may hold a file at a time. The lease is released on unlock, or when it expires on its own.",
        Precondition::Role => "This folder was joined with a role that cannot take a lease, so every edit path is refused here.",
    }
}

/// Says how far the pull that stands in the way has got.
pub fn refused_pull_progress(percent: u64) -> (r: String)
    ensures
        r@ == "this path is "@ + text::dec(percent as nat) + "% pulled"@,
{
    let mut r: String = "this path is ".to_owned();
    r.append(decimal(percent).as_str());
    r.append("% pulled");
    r
}

/// Summarises the queue of transfers.
pub fn transfer_meta(backlog: usize, resuming: usize, cap: Option<String>) -> (r: String)
    ensures
        ({
            let queue = text::dec(backlog as nat) + " queued · "@ + text::dec(resuming as nat)
                + " resuming"@;
            r@ == match cap {
                Some(c) => queue + " · capped at "@ + c@ + "/s"@,
                None => queue,
            }
        }),
{
    let mut r: String = decimal(backlog as u64);
    r.append(" queued · ");
    r.append(decimal(resuming as u64).as_str());
    r.append(" resuming");
    match cap {
        Some(c) => {
            r.append(" · capped at ");
            r.append(c.as_str());
            r.append("/s");
        },
        None => {},
    }
    r
}

/// Says what is running, and at which step of how many.
pub fn working_step(what: &str, subject: &str, step: Option<(u8, u8)>) -> (r: String)
    ensures
        r@ == match step {
            Some((n, of)) => what@ + " "@ + subject@ + " — step "@ + text::dec(n as nat) + " of "@
                + text::dec(of as nat),
            None => what@ + " "@ + subject@,
        },
{
    let mut r: String = what.to_owned();
    r.append(" ");
    r.append(subject);
    match step {
        Some((n, of)) => {
            r.append(" — step ");
            r.append(decimal(n as u64).as_str());
            r.append(" of ");
            r.append(decimal(of as u64).as_str());
        },
        None => {},
    }
    r
}

/// Says how old what is on screen is when a session stops answering.
pub fn stale_for(seconds: u64) -> (r: String)
    ensures
        r@ == "this session last answered "@ + (if seconds < 60 {
            text::dec(seconds as nat) + "s"@
        } else {
            text::dec(seconds as nat / 60) + "m"@
        }) + " ago — showing the last good read"@,
{
    let age: String = if seconds < 60 {
        let mut a: String = decimal(seconds);
        a.append("s");
        a
    } else {
        let mut a: String = decimal(seconds / 60);
        a.append("m");
        a
    };
    let mut r: String = "this session last answered ".to_owned();
    r.append(age.as_str());
    r.append(" ago — showing the last good read");
    r
}

/// Says what is about to be deleted.
pub fn prune_body(count: usize, bytes: &str) -> (r: String)
    ensures
        r@ == text::dec(count as nat) + " preserved copies ("@ + bytes@
            + ") are older than the cutoff and will be deleted from disk. Each one is a version of a file that was preserved because two histories diverged; once deleted they cannot be restored. Nothing currently synced is touched."@,
{
    let mut r: String = decimal(count as u64);
    r.append(" preserved copies (");
    r.append(bytes);
    r.append(
        ") are older than the cutoff and will be deleted from disk. Each one is a version of a file that was preserved because two histories diverged; once deleted they cannot be restored. Nothing currently synced is touched.",
    );
    r
}

/// The standing count beside the control that deletes preserved copies.
pub fn prune_preview(count: usize, bytes: &str) -> (r: String)
    ensures
        r@ == (if count == 0 {
            "nothing is older than the cutoff"@
        } else {
            text::dec(count as nat) + " copies · "@ + bytes@
        }),
{
    if count == 0 {
        "nothing is older than the cutoff".to_owned()
    } else {
        let mut r: String = decimal(count as u64);
        r.append(" copies · ");
        r.append(bytes);
        r
    }
}

/// A count with the form of its noun that goes with it.
pub open spec fn counted_as(n: nat, one: Chars, many: Chars) -> Chars {
    text::dec(n) + " "@ + if n == 1 {
        one
    } else {
        many
    }
}

/// A count with its noun; the caller names both forms.
pub fn plural(n: usize, one: &str, many: &str) -> (r: String)
    ensures
        r@ == counted_as(n as nat, one@, many@),
{
    let mut r: String = decimal(n as u64);
    r.append(" ");
    if n == 1 {
        r.append(one);
    } else {
        r.append(many);
    }
    r
}

/// The slice of the whole index that is on screen, in numbers that start at one,
/// where it is a slice: neither nothing, nor all of it, nor past its end.
pub open spec fn page_range(offset: nat, shown: nat, matched: nat) -> Option<(nat, nat)> {
    if 0 < shown < matched && offset < matched {
        Some(
            (
                offset + 1,
                if offset + shown < matched {
                    offset + shown
                } else {
                    matched
                },
            ),
        )
    } else {
        None
    }
}

/// Which part of the whole index is on screen: nothing for no match, the count
/// where all of it is shown, and else the slice, unless it starts past the end.
pub open spec fn page_text(offset: nat, shown: nat, matched: nat) -> Chars {
    if matched == 0 {
        "no file matches"@
    } else if shown >= matched {
        text::dec(matched) + " matching"@
    } else {
        match page_range(offset, shown, matched) {
            Some((first, last)) => text::dec(first) + "–"@ + text::dec(last) + " of "@ + text::dec(
                matched,
            ) + " matching"@,
            None => text::dec(matched) + " matching — past the last page"@,
        }
    }
}

/// A slice is never named backwards, nor beyond what there is.
pub proof fn law_a_page_never_runs_backwards(offset: nat, shown: nat, matched: nat)
    ensures
        match page_range(offset, shown, matched) {
            Some((first, last)) => offset + 1 == first && first <= last <= matched,
            None => true,
        },
        0 < shown < matched && offset + shown <= matched ==> page_range(offset, shown, matched)
            == Some((offset + 1, offset + shown)),
        offset >= matched ==> page_range(offset, shown, matched) is None,
{
}

/// Says which slice of the whole index is on screen.
pub fn files_page(offset: usize, shown: usize, matched: usize) -> (r: String)
    ensures
        r@ == page_text(offset as nat, shown as nat, matched as nat),
{
    if matched == 0 {
        return "no file matches".to_owned();
    }
    if shown >= matched {
        let mut r: String = decimal(matched as u64);
        r.append(" matching");
        return r;
    }
    if shown == 0 || offset >= matched {
        let mut r: String = decimal(matched as u64);
        r.append(" matching — past the last page");
        return r;
    }
    let last: usize = if shown < matched - offset {
        offset + shown
    } else {
        matched
    };
    let mut r: String = decimal((offset + 1) as u64);
    r.append("–");
    r.append(decimal(last as u64).as_str());
    r.append(" of ");
    r.append(decimal(matched as u64).as_str());
    r.append(" matching");
    r
}

/// A folder's file count and its share of the session. `share` is in
/// millionths, or `None` where it is no number.
pub fn group_share(files: usize, share: Option<i64>) -> (r: String)
    ensures
        r@ == counted_as(files as nat, "file"@, "files"@) + " · "@ + text::dec(
            grouping::percent(share),
        ) + "%"@,
{
    let mut r: String = plural(files, "file", "files");
    r.append(" · ");
    r.append(decimal(whole_percent(share)).as_str());
    r.append("%");
    r
}

/// The folio of the page at that place in the bar's reading order.
pub open spec fn folio_numeral(at: int) -> Option<Chars> {
    if at == 0 {
        Some("I"@)
    } else if at == 1 {
        Some("II"@)
    } else if at == 2 {
        Some("III"@)
    } else if at == 3 {
        Some("IV"@)
    } else {
        None
    }
}

/// The folio of the page at that place in the bar's reading order.
pub fn menubar_folio(at: usize) -> (r: Option<&'static str>)
    ensures
        match r {
            Some(f) => folio_numeral(at as int) == Some(f@),
            None => folio_numeral(at as int) is None,
        },
{
    if at == 0 {
        Some("I")
    } else if at == 1 {
        Some("II")
    } else if at == 2 {
        Some("III")
    } else if at == 3 {
        Some("IV")
    } else {
        None
    }
}

/// What a head of the bar is called when it is read out.
pub fn menu_spoken(label: &str) -> (r: String)
    ensures
        r@ == label@ + " menu"@,
{
    let mut r: String = label.to_owned();
    r.append(" menu");
    r
}

/// The verb that installs a release.
pub open spec fn install_text(latest: Chars) -> Chars {
    "Install "@ + latest
}

/// The verb that installs a release.
pub fn menu_update_install(latest: &str) -> (r: String)
    ensures
        r@ == install_text(latest@),
{
    let mut r: String = "Install ".to_owned();
    r.append(latest);
    r
}

/// The note on a newer release.
pub open spec fn offer_text(current: Chars, latest: Chars) -> Chars {
    latest + " is available — this window runs "@ + current
}

/// The note on a newer release.
pub fn update_offer(current: &str, latest: &str) -> (r: String)
    ensures
        r@ == offer_text(current@, latest@),
{
    let mut r: String = latest.to_owned();
    r.append(" is available — this window runs ");
    r.append(current);
    r
}

/// The note on a release that was installed.
pub open spec fn applied_text(latest: Chars) -> Chars {
    latest + " is installed and takes effect on the next start"@
}

/// The note on a release that was installed.
pub fn update_applied(latest: &str) -> (r: String)
    ensures
        r@ == applied_text(latest@),
{
    let mut r: String = latest.to_owned();
    r.append(" is installed and takes effect on the next start");
    r
}

/// The note on a check that failed.
pub open spec fn failed_text(why: Chars) -> Chars {
    "the check did not finish: "@ + why
}

/// The note on a check that failed.
pub fn update_failed(why: &str) -> (r: String)
    ensures
        r@ == failed_text(why@),
{
    let mut r: String = "the check did not finish: ".to_owned();
    r.append(why);
    r
}

/// The note before any check.
pub open spec fn unchecked_text(current: Chars) -> Chars {
    current + " — not checked since this window opened"@
}

/// The note before any check.
pub fn update_unchecked(current: &str) -> (r: String)
    ensures
        r@ == unchecked_text(current@),
{
    let mut r: String = current.to_owned();
    r.append(" — not checked since this window opened");
    r
}

/// The note on a check that found nothing newer.
pub open spec fn up_to_date_text(current: Chars, when: Chars) -> Chars {
    current + " is the latest release — checked "@ + when
}

/// The note on a check that found nothing newer.
pub fn update_up_to_date(current: &str, when: &str) -> (r: String)
    ensures
        r@ == up_to_date_text(current@, when@),
{
    let mut r: String = current.to_owned();
    r.append(" is the latest release — checked ");
    r.append(when);
    r
}

// ---------------------------------------------------------------------------
// The standing statement
// ---------------------------------------------------------------------------

/// Everything the standing statement is made from.
pub struct Standing {
    /// Whether the session's daemon is up.
    pub running: bool,
    /// Whether edits go by one holder at a time.
    pub strict: bool,
    /// How many paths are tracked.
    pub files: usize,
    /// How many of them this device holds.
    pub held_by_you: usize,
    /// How many other devices hold.
    pub held_by_peers: usize,
    /// How many preserved copies wait for a decision.
    pub conflicts: usize,
    /// How many peers can be reached.
    pub peers_online: usize,
    /// How many peers are known.
    pub peers_total: usize,
}

/// Who holds what.
pub open spec fn custody_text(you: nat, peers: nat) -> Chars {
    let elsewhere = counted_as(peers, "file is"@, "files are"@) + " held elsewhere"@;
    let yours = "you hold "@ + counted_as(you, "file"@, "files"@);
    if you == 0 && peers == 0 {
        "nothing is held"@
    } else if peers == 0 {
        yours
    } else if you == 0 {
        elsewhere
    } else {
        yours + ", "@ + elsewhere
    }
}

/// Who can be reached.
pub open spec fn reach_text(online: nat, total: nat) -> Chars {
    if total == 0 {
        "no peer has joined yet"@
    } else if online == 0 {
        "no peer is reachable"@
    } else if online == total {
        "in step with "@ + counted_as(online, "peer"@, "peers"@)
    } else {
        text::dec(online) + " of "@ + text::dec(total) + " peers reachable"@
    }
}

/// The sentence at the head of the overview.
pub open spec fn standing_text(s: Standing) -> Chars {
    if !s.running {
        "This session is stopped. Nothing is syncing, and no file here can be edited."@
    } else {
        counted_as(s.files as nat, "file"@, "files"@) + ", "@ + custody_text(
            s.held_by_you as nat,
            s.held_by_peers as nat,
        ) + ", "@ + reach_text(s.peers_online as nat, s.peers_total as nat) + "."@
    }
}

fn custody(you: usize, peers: usize) -> (r: String)
    ensures
        r@ == custody_text(you as nat, peers as nat),
{
    if you == 0 && peers == 0 {
        return "nothing is held".to_owned();
    }
    let mut elsewhere: String = plural(peers, "file is", "files are");
    elsewhere.append(" held elsewhere");
    if you == 0 {
        return elsewhere;
    }
    let mut r: String = "you hold ".to_owned();
    r.append(plural(you, "file", "files").as_str());
    if peers == 0 {
        return r;
    }
    r.append(", ");
    r.append(elsewhere.as_str());
    r
}

fn reach(online: usize, total: usize) -> (r: String)
    ensures
        r@ == reach_text(online as nat, total as nat),
{
    if total == 0 {
        "no peer has joined yet".to_owned()
    } else if online == 0 {
        "no peer is reachable".to_owned()
    } else if online == total {
        let mut r: String = "in step with ".to_owned();
        r.append(plural(online, "peer", "peers").as_str());
        r
    } else {
        let mut r: String = decimal(online as u64);
        r.append(" of ");
        r.append(decimal(total as u64).as_str());
        r.append(" peers reachable");
        r
    }
}

/// The sentence at the head of the overview.
pub fn standing(s: &Standing) -> (r: String)
    ensures
        r@ == standing_text(*s),
{
    if !s.running {
        return "This session is stopped. Nothing is syncing, and no file here can be edited.".to_owned();
    }
    let mut r: String = plural(s.files, "file", "files");
    r.append(", ");
    r.append(custody(s.held_by_you, s.held_by_peers).as_str());
    r.append(", ");
    r.append(reach(s.peers_online, s.peers_total).as_str());
    r.append(".");
    r
}

/// One thing the session needs the reader to deal with.
#[derive(Clone, Copy, PartialEq, Eq, Debug, Structural)]
pub enum Attention {
    /// Preserved copies wait for a decision.
    Conflicts(usize),
    /// Every edit is refused because no peer can be reached.
    NoPeers,
    /// This device holds files whose changes are not published.
    Unpublished(usize),
    /// The session is stopped.
    Stopped,
}

/// What a session needs, most pressing first.
pub open spec fn needs(s: Standing) -> Seq<Attention> {
    if !s.running {
        seq![Attention::Stopped]
    } else {
        let first = if s.conflicts > 0 {
            seq![Attention::Conflicts(s.conflicts)]
        } else {
            Seq::empty()
        };
        let second = if s.strict && s.peers_online == 0 && s.peers_total > 0 {
            seq![Attention::NoPeers]
        } else {
            Seq::empty()
        };
        let third = if s.held_by_you > 0 {
            seq![Attention::Unpublished(s.held_by_you)]
        } else {
            Seq::empty()
        };
        first + second + third
    }
}

/// What this session needs, most pressing first. Empty when all is well.
pub fn attention(s: &Standing) -> (out: Vec<Attention>)
    ensures
        out@ == needs(*s),
{
    let mut out: Vec<Attention> = Vec::new();
    if !s.running {
        out.push(Attention::Stopped);
        proof {
            assert(out@ =~= needs(*s));
        }
        return out;
    }
    if s.conflicts > 0 {
        out.push(Attention::Conflicts(s.conflicts));
    }
    if s.strict && s.peers_online == 0 && s.peers_total > 0 {
        out.push(Attention::NoPeers);
    }
    if s.held_by_you > 0 {
        out.push(Attention::Unpublished(s.held_by_you));
    }
    proof {
        assert(out@ =~= needs(*s));
    }
    out
}

/// Preserved copies outrank every other need of a running session, and no need
/// is told twice.
pub proof fn law_conflicts_come_first(s: Standing)
    requires
        s.running,
    ensures
        s.conflicts > 0 ==> needs(s).len() > 0 && needs(s)[0] == Attention::Conflicts(s.conflicts),
        needs(s).no_duplicates(),
{
}

/// A session in easy mode, and one that nobody has joined, is never said to be
/// refusing edits for want of a peer.
pub proof fn law_unreachable_only_where_it_matters(s: Standing)
    ensures
        needs(s).contains(Attention::NoPeers) ==> s.running && s.strict && s.peers_total > 0
            && s.peers_online == 0,
        s.running && s.strict && s.peers_total > 0 && s.peers_online == 0 ==> needs(s).contains(
            Attention::NoPeers,
        ),
{
    if s.running && s.strict && s.peers_total > 0 && s.peers_online == 0 {
        let at: int = if s.conflicts > 0 {
            1
        } else {
            0
        };
        assert(needs(s)[at] == Attention::NoPeers);
    }
}

/// A stopped session needs to be started and nothing else.
pub proof fn law_a_stopped_session_says_so_first(s: Standing)
    requires
        !s.running,
    ensures
        needs(s) == seq![Attention::Stopped],
{
}

impl Attention {
    /// The line of a need.
    pub open spec fn line_text(self) -> Chars {
        match self {
            Attention::Conflicts(n) => counted_as(
                n as nat,
                "preserved copy is"@,
                "preserved copies are"@,
            ) + " waiting on your decision — nothing is lost until you choose"@,
            Attention::NoPeers => "No peer is reachable, so every edit is refused until one returns."@,
            Attention::Unpublished(n) => counted_as(n as nat, "file is"@, "files are"@)
                + " still held by you — unlock to publish your changes"@,
            Attention::Stopped => "Start this session to sync and to edit."@,
        }
    }

    /// The line shown for it.
    pub fn line(self) -> (r: String)
        ensures
            r@ == self.line_text(),
    {
        match self {
            Attention::Conflicts(n) => {
                let mut r: String = plural(n, "preserved copy is", "preserved copies are");
                r.append(" waiting on your decision — nothing is lost until you choose");
                r
            },
            Attention::NoPeers => "No peer is reachable, so every edit is refused until one returns.".to_owned(),
            Attention::Unpublished(n) => {
                let mut r: String = plural(n, "file is", "files are");
                r.append(" still held by you — unlock to publish your changes");
                r
            },
            Attention::Stopped => "Start this session to sync and to edit.".to_owned(),
        }
    }

    /// The verb that answers it.
    pub fn verb(self) -> (r: Option<&'static str>)
        ensures
            r is Some,
            (r->0)@ == match self {
                Attention::Conflicts(_) => "Resolve"@,
                Attention::NoPeers => "See peers"@,
                Attention::Unpublished(_) => "See files"@,
                Attention::Stopped => "Start"@,
            },
    {
        match self {
            Attention::Conflicts(_) => Some("Resolve"),
            Attention::NoPeers => Some("See peers"),
            Attention::Unpublished(_) => Some("See files"),
            Attention::Stopped => Some("Start"),
        }
    }
}

// ---------------------------------------------------------------------------
// What the sentences say of their numbers
// ---------------------------------------------------------------------------

/// A stale read is told in seconds below a minute, and else in whole minutes of
/// sixty.
pub proof fn law_a_stale_read_tells_its_age(seconds: u64, k: nat, r: String)
    requires
        call_ensures(stale_for, (seconds,), r),
    ensures
        seconds < 60 ==> r@ == "this session last answered "@ + text::dec(seconds as nat) + "s"@
            + " ago — showing the last good read"@,
        1 <= k && 60 * k <= seconds < 60 * (k + 1) ==> r@ == "this session last answered "@
            + text::dec(k) + "m"@ + " ago — showing the last good read"@,
{
    if 1 <= k && 60 * k <= seconds < 60 * (k + 1) {
        assert(seconds as nat / 60 == k);
    }
}

/// A queue is told by what waits and what resumes, in that order, and by its cap
/// where it has one.
pub proof fn law_a_queue_is_told_with_its_cap(
    backlog: usize,
    resuming: usize,
    cap: Option<String>,
    r: String,
)
    requires
        call_ensures(transfer_meta, (backlog, resuming, cap), r),
    ensures
        cap is None ==> r@ == text::dec(backlog as nat) + " queued · "@ + text::dec(resuming as nat)
            + " resuming"@,
        cap is Some ==> r@ == text::dec(backlog as nat) + " queued · "@ + text::dec(resuming as nat)
            + " resuming"@ + " · capped at "@ + (cap->0)@ + "/s"@,
{
}

/// What would be pruned is counted, and nothing is said to be nothing.
pub proof fn law_a_preview_counts_what_goes(count: usize, bytes: &str, r: String)
    requires
        call_ensures(prune_preview, (count, bytes), r),
    ensures
        count == 0 <==> r@ == "nothing is older than the cutoff"@,
        count > 0 ==> r@ == text::dec(count as nat) + " copies · "@ + bytes@,
{
    reveal_strlit("nothing is older than the cutoff");
    if count > 0 {
        text::law_a_number_reads_back(count as nat);
        assert(r@[0] == text::dec(count as nat)[0]);
    }
}

/// Counts below, at and above one take their own word.
pub proof fn law_one_is_singular(n: usize, one: &str, many: &str, r: String)
    requires
        call_ensures(plural, (n, one, many), r),
    ensures
        n == 1 ==> r@ == "1 "@ + one@,
        n != 1 ==> r@ == text::dec(n as nat) + " "@ + many@,
{
    reveal_strlit("1 ");
    reveal_strlit(" ");
    assert(text::dec(1) =~= seq!['1']);
}

/// A step is told by its place and by how many there are.
pub proof fn law_a_step_is_told_by_its_place(
    what: &str,
    subject: &str,
    step: Option<(u8, u8)>,
    r: String,
)
    requires
        call_ensures(working_step, (what, subject, step), r),
    ensures
        step is None ==> r@ == what@ + " "@ + subject@,
        step is Some ==> r@ == what@ + " "@ + subject@ + " — step "@ + text::dec(
            (step->0).0 as nat,
        ) + " of "@ + text::dec((step->0).1 as nat),
{
}

/// A page of a list names its first and its last entry: as many as are shown,
/// from the one behind the offset, never past the end.
pub proof fn law_a_page_names_what_it_shows(offset: usize, shown: usize, matched: usize, r: String)
    requires
        call_ensures(files_page, (offset, shown, matched), r),
    ensures
        matched == 0 ==> r@ == "no file matches"@,
        0 < matched <= shown ==> r@ == text::dec(matched as nat) + " matching"@,
        0 < shown < matched && offset + shown <= matched ==> r@ == text::dec((offset + 1) as nat)
            + "–"@ + text::dec((offset + shown) as nat) + " of "@ + text::dec(matched as nat)
            + " matching"@,
        0 < shown < matched && offset < matched < offset + shown ==> r@ == text::dec(
            (offset + 1) as nat,
        ) + "–"@ + text::dec(matched as nat) + " of "@ + text::dec(matched as nat) + " matching"@,
        0 < matched && shown < matched && (shown == 0 || offset >= matched) ==> r@ == text::dec(
            matched as nat,
        ) + " matching — past the last page"@,
{
}

/// A group is told by its files and by its share in whole percent.
pub proof fn law_a_group_is_told_by_its_share(files: usize, share: i64, percent: nat, r: String)
    requires
        call_ensures(group_share, (files, Some(share)), r),
        0 <= share <= 1_000_000,
        10_000 * percent <= share + 5_000 < 10_000 * (percent + 1),
    ensures
        r@ == text::counted(files as nat, "file"@) + " · "@ + text::dec(percent) + "%"@,
{
    reveal_strlit("file");
    reveal_strlit("files");
    reveal_strlit("s");
    assert("file"@ + "s"@ =~= "files"@);
    assert(counted_as(files as nat, "file"@, "files"@) =~= text::counted(files as nat, "file"@));
}

/// The pages are numbered in Roman numerals from one to four.
pub proof fn law_folios_run_from_one_to_four(at: usize, r: Option<&'static str>)
    requires
        call_ensures(menubar_folio, (at,), r),
    ensures
        at == 0 ==> r is Some && (r->0)@ == "I"@,
        at == 1 ==> r is Some && (r->0)@ == "II"@,
        at == 2 ==> r is Some && (r->0)@ == "III"@,
        at == 3 ==> r is Some && (r->0)@ == "IV"@,
        at >= 4 ==> r is None,
{
}

/// Custody is told by who holds: you first, then the others, and nobody where
/// nothing is held.
pub proof fn law_custody_tells_who_holds(you: nat, peers: nat)
    ensures
        you == 0 && peers == 0 ==> custody_text(you, peers) == "nothing is held"@,
        you > 0 && peers == 0 ==> custody_text(you, peers) == "you hold "@ + text::counted(
            you,
            "file"@,
        ),
        you == 0 && peers == 1 ==> custody_text(you, peers) == "1 file is held elsewhere"@,
        you == 0 && peers > 1 ==> custody_text(you, peers) == text::dec(peers)
            + " files are held elsewhere"@,
        you > 0 && peers > 0 ==> custody_text(you, peers) == custody_text(you, 0) + ", "@
            + custody_text(0, peers),
{
    reveal_strlit("file");
    reveal_strlit("files");
    reveal_strlit("s");
    reveal_strlit(" ");
    reveal_strlit("file is");
    reveal_strlit("files are");
    reveal_strlit(" held elsewhere");
    reveal_strlit("1 file is held elsewhere");
    reveal_strlit(" files are held elsewhere");
    assert("file"@ + "s"@ =~= "files"@);
    assert(counted_as(you, "file"@, "files"@) =~= text::counted(you, "file"@));
    assert(text::dec(1) =~= seq!['1']);
    if peers == 1 && you == 0 {
        assert(custody_text(you, peers) =~= "1 file is held elsewhere"@);
    }
    if peers > 1 && you == 0 {
        assert(custody_text(you, peers) =~= text::dec(peers) + " files are held elsewhere"@);
    }
}

/// Reach is told by how many peers answer out of how many there are.
pub proof fn law_reach_tells_who_answers(online: nat, total: nat)
    requires
        online <= total,
    ensures
        total == 0 ==> reach_text(online, total) == "no peer has joined yet"@,
        total > 0 && online == 0 ==> reach_text(online, total) == "no peer is reachable"@,
        total > 0 && online == total ==> reach_text(online, total) == "in step with "@
            + text::counted(online, "peer"@),
        0 < online < total ==> reach_text(online, total) == text::dec(online) + " of "@ + text::dec(
            total,
        ) + " peers reachable"@,
{
    reveal_strlit("peer");
    reveal_strlit("peers");
    reveal_strlit("s");
    assert("peer"@ + "s"@ =~= "peers"@);
    assert(counted_as(online, "peer"@, "peers"@) =~= text::counted(online, "peer"@));
}

/// The standing of a running session is its files, its custody and its reach, in
/// that order; a stopped one says only that.
pub proof fn law_a_standing_tells_files_custody_and_reach(s: Standing)
    ensures
        !s.running ==> standing_text(s)
            == "This session is stopped. Nothing is syncing, and no file here can be edited."@,
        s.running ==> standing_text(s) == text::counted(s.files as nat, "file"@) + ", "@
            + custody_text(s.held_by_you as nat, s.held_by_peers as nat) + ", "@ + reach_text(
            s.peers_online as nat,
            s.peers_total as nat,
        ) + "."@,
{
    reveal_strlit("file");
    reveal_strlit("files");
    reveal_strlit("s");
    assert("file"@ + "s"@ =~= "files"@);
    assert(counted_as(s.files as nat, "file"@, "files"@) =~= text::counted(
        s.files as nat,
        "file"@,
    ));
}

/// Each thing that needs attention is listed exactly when it is so, conflicts
/// before unreachable peers before what is unpublished.
pub proof fn law_attention_is_called_to_what_is_so(s: Standing, a: Attention)
    ensures
        needs(s).contains(a) <==> match a {
            Attention::Stopped => !s.running,
            Attention::Conflicts(n) => s.running && n == s.conflicts && n > 0,
            Attention::NoPeers => s.running && s.strict && s.peers_total > 0 && s.peers_online == 0,
            Attention::Unpublished(n) => s.running && n == s.held_by_you && n > 0,
        },
        needs(s).len() > 1 && needs(s)[0] is NoPeers ==> needs(s)[1] is Unpublished,
        needs(s).len() > 0 && needs(s)[0] is Unpublished ==> needs(s).len() == 1,
        needs(s).len() > 0 && needs(s).last() is Conflicts ==> needs(s).len() == 1,
{
    let first = if s.conflicts > 0 {
        seq![Attention::Conflicts(s.conflicts)]
    } else {
        Seq::empty()
    };
    let second = if s.strict && s.peers_online == 0 && s.peers_total > 0 {
        seq![Attention::NoPeers]
    } else {
        Seq::empty()
    };
    if s.running {
        match a {
            Attention::Conflicts(n) => {
                if n == s.conflicts && n > 0 {
                    assert(needs(s)[0] == a);
                }
            },
            Attention::NoPeers => {
                if s.strict && s.peers_total > 0 && s.peers_online == 0 {
                    assert(needs(s)[first.len() as int] == a);
                }
            },
            Attention::Unpublished(n) => {
                if n == s.held_by_you && n > 0 {
                    assert(needs(s)[(first.len() + second.len()) as int] == a);
                }
            },
            Attention::Stopped => {},
        }
    } else {
        assert(needs(s)[0] == Attention::Stopped);
    }
}

/// The lifetime of a path tells what went up as sent and what came down as
/// received.
pub proof fn law_a_lifetime_tells_both_ways(up: &str, down: &str, ttd: Option<u64>, r: String)
    requires
        call_ensures(peer_lifetime, (up, down, ttd), r),
    ensures
        ttd is None ==> r@ == "lifetime — sent "@ + up@ + ", received "@ + down@,
        ttd is Some ==> r@ == "lifetime — sent "@ + up@ + ", received "@ + down@
            + "\ndirect path found in "@ + tenths::seconds_text(ttd->0 as nat) + "s"@,
{
}

/// A cut list says how much of how much it shows.
pub proof fn law_a_cut_list_says_how_much_it_shows(
    shown: usize,
    total: usize,
    files: String,
    history: String,
    audit: String,
)
    requires
        call_ensures(files_truncated, (shown, total), files),
        call_ensures(history_truncated, (shown, total), history),
        call_ensures(audit_truncated, (shown, total), audit),
    ensures
        ("showing the first "@ + text::dec(shown as nat) + " of "@ + text::dec(total as nat)
            + " files"@).is_prefix_of(files@),
        ("showing the "@ + text::dec(shown as nat) + " most recent of "@ + text::dec(total as nat)
            + " versions"@).is_prefix_of(history@),
        ("showing the "@ + text::dec(shown as nat) + " most recent of "@ + text::dec(total as nat)
            + " entries"@).is_prefix_of(audit@),
{
    reveal_strlit(" files");
    reveal_strlit(
        " files — a folder this large is paged for the view, the full set still syncs",
    );
    reveal_strlit(" versions");
    reveal_strlit(" versions — use `tazamun log` for the full ledger");
    reveal_strlit(" entries");
    reveal_strlit(" entries — use `tazamun log` for the full ledger");
    let f = "showing the first "@ + text::dec(shown as nat) + " of "@ + text::dec(total as nat);
    let h = "showing the "@ + text::dec(shown as nat) + " most recent of "@ + text::dec(
        total as nat,
    );
    assert((f + " files"@) =~= files@.take((f + " files"@).len() as int));
    assert((h + " versions"@) =~= history@.take((h + " versions"@).len() as int));
    assert((h + " entries"@) =~= audit@.take((h + " entries"@).len() as int));
}

/// A lifetime of an invite is what its word says, in milliseconds: an hour is
/// 3600 seconds, a day 24 hours, and "never" has none. So is a cutoff's age.
pub proof fn law_a_span_lasts_as_long_as_it_says(
    ttls: Vec<(&'static str, Option<u64>)>,
    ages: Vec<(&'static str, u64)>,
)
    requires
        call_ensures(invite_ttls, (), ttls),
        call_ensures(prune_ages, (), ages),
    ensures
        ttls@.len() == 4 && ages@.len() == 3,
        ttls@[0].0@ == "1 hour"@ && ttls@[0].1 == Some((3_600 * 1_000) as u64),
        ttls@[1].0@ == "1 day"@ && ttls@[1].1 == Some((24 * 3_600 * 1_000) as u64),
        ttls@[2].0@ == "7 days"@ && ttls@[2].1 == Some((7 * 24 * 3_600 * 1_000) as u64),
        ttls@[3].0@ == "never"@ && ttls@[3].1 is None,
        ages@[0].0@ == "7 days"@ && ages@[0].1 == 7 * 24 * 3_600 * 1_000,
        ages@[1].0@ == "30 days"@ && ages@[1].1 == 30 * 24 * 3_600 * 1_000,
        ages@[2].0@ == "90 days"@ && ages@[2].1 == 90 * 24 * 3_600 * 1_000,
{
    let t = named(ttls@);
    let a = named(ages@);
    assert(t.len() == 4 && a.len() == 3);
    assert(t[0] == (ttls@[0].0@, ttls@[0].1) && t[1] == (ttls@[1].0@, ttls@[1].1));
    assert(t[2] == (ttls@[2].0@, ttls@[2].1) && t[3] == (ttls@[3].0@, ttls@[3].1));
    assert(a[0] == (ages@[0].0@, ages@[0].1) && a[1] == (ages@[1].0@, ages@[1].1));
    assert(a[2] == (ages@[2].0@, ages@[2].1));
}

/// A refused edit is explained by the condition that failed; a word that is none
/// of the others speaks of the role.
pub proof fn law_a_refusal_is_explained(p: &str, title: &'static str)
    requires
        call_ensures(precondition_title, (p,), title),
    ensures
        p@ == "REACHABILITY"@ ==> title@ == "No peer is reachable"@,
        p@ == "FRESHNESS"@ ==> title@ == "This copy is not up to date yet"@,
        p@ == "LEASE"@ ==> title@ == "Someone else holds the pen"@,
        p@ != "REACHABILITY"@ && p@ != "FRESHNESS"@ && p@ != "LEASE"@ ==> title@
            == "This folder does not allow edits"@,
{
    reveal_strlit("REACHABILITY");
    reveal_strlit("FRESHNESS");
    reveal_strlit("LEASE");
    assert("REACHABILITY"@[0] == 'R' && "FRESHNESS"@[0] == 'F' && "LEASE"@[0] == 'L');
}

/// What needs attention is told in its own words, and offers its own verb.
pub proof fn law_attention_is_told_with_its_verb(a: Attention, line: String, verb: Option<&'static str>)
    requires
        call_ensures(Attention::line, (a,), line),
        call_ensures(Attention::verb, (a,), verb),
    ensures
        a is Conflicts && a->Conflicts_0 == 1 ==> line@
            == "1 preserved copy is waiting on your decision — nothing is lost until you choose"@,
        a is Conflicts && a->Conflicts_0 != 1 ==> line@ == text::dec(a->Conflicts_0 as nat)
            + " preserved copies are waiting on your decision — nothing is lost until you choose"@,
        a is NoPeers ==> line@
            == "No peer is reachable, so every edit is refused until one returns."@,
        a is Unpublished && a->Unpublished_0 == 1 ==> line@
            == "1 file is still held by you — unlock to publish your changes"@,
        a is Unpublished && a->Unpublished_0 != 1 ==> line@ == text::dec(a->Unpublished_0 as nat)
            + " files are still held by you — unlock to publish your changes"@,
        a is Stopped ==> line@ == "Start this session to sync and to edit."@,
        verb is Some,
        (verb->0)@ == match a {
            Attention::Conflicts(_) => "Resolve"@,
            Attention::NoPeers => "See peers"@,
            Attention::Unpublished(_) => "See files"@,
            Attention::Stopped => "Start"@,
        },
{
    match a {
        Attention::Conflicts(n) => lemma_conflict_words(n as nat),
        Attention::Unpublished(n) => lemma_unpublished_words(n as nat),
        _ => {},
    }
}

proof fn lemma_conflict_words(n: nat)
    ensures
        n == 1 ==> Attention::Conflicts(1).line_text()
            == "1 preserved copy is waiting on your decision — nothing is lost until you choose"@,
        n != 1 ==> counted_as(n, "preserved copy is"@, "preserved copies are"@)
            + " waiting on your decision — nothing is lost until you choose"@ == text::dec(n)
            + " preserved copies are waiting on your decision — nothing is lost until you choose"@,
{
    reveal_strlit(" ");
    reveal_strlit("preserved copy is");
    reveal_strlit("preserved copies are");
    reveal_strlit(" waiting on your decision — nothing is lost until you choose");
    reveal_strlit(
        "1 preserved copy is waiting on your decision — nothing is lost until you choose",
    );
    reveal_strlit(
        " preserved copies are waiting on your decision — nothing is lost until you choose",
    );
    assert(text::dec(1) =~= seq!['1']);
    if n != 1 {
        assert(counted_as(n, "preserved copy is"@, "preserved copies are"@)
            + " waiting on your decision — nothing is lost until you choose"@ =~= text::dec(n)
            + " preserved copies are waiting on your decision — nothing is lost until you choose"@);
    } else {
        assert(Attention::Conflicts(1).line_text()
            =~= "1 preserved copy is waiting on your decision — nothing is lost until you choose"@);
    }
}

proof fn lemma_unpublished_words(n: nat)
    ensures
        n == 1 ==> Attention::Unpublished(1).line_text()
            == "1 file is still held by you — unlock to publish your changes"@,
        n != 1 ==> counted_as(n, "file is"@, "files are"@)
            + " still held by you — unlock to publish your changes"@ == text::dec(n)
            + " files are still held by you — unlock to publish your changes"@,
{
    reveal_strlit(" ");
    reveal_strlit("file is");
    reveal_strlit("files are");
    reveal_strlit(" still held by you — unlock to publish your changes");
    reveal_strlit("1 file is still held by you — unlock to publish your changes");
    reveal_strlit(" files are still held by you — unlock to publish your changes");
    assert(text::dec(1) =~= seq!['1']);
    if n != 1 {
        assert(counted_as(n, "file is"@, "files are"@)
            + " still held by you — unlock to publish your changes"@ =~= text::dec(n)
            + " files are still held by you — unlock to publish your changes"@);
    } else {
        assert(Attention::Unpublished(1).line_text()
            =~= "1 file is still held by you — unlock to publish your changes"@);
    }
}

/// A pause that waits for the supervisor says which of the two it was.
pub proof fn law_a_deferred_pause_says_which_it_was(paused: bool, r: String)
    requires
        call_ensures(toast_paused_deferred, (paused,), r),
    ensures
        paused ==> "paused — "@.is_prefix_of(r@),
        !paused ==> "resumed — "@.is_prefix_of(r@),
{
    reveal_strlit("paused");
    reveal_strlit("resumed");
    reveal_strlit("paused — ");
    reveal_strlit("resumed — ");
    reveal_strlit(
        " — no supervisor is running, so this takes effect on the next `start --all`",
    );
    if paused {
        assert("paused — "@ =~= r@.take("paused — "@.len() as int));
    } else {
        assert("resumed — "@ =~= r@.take("resumed — "@.len() as int));
    }
}

} // verus!
