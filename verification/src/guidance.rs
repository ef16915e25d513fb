//! What the details of a cache location say about deleting it: what it
//! is, what a deletion removes, what it costs, and what to do instead.
use vstd::prelude::*;
use crate::session::EntryStatus;
use crate::text::str_eq;

verus! {

/// How a cache location may be cleaned.
#[derive(PartialEq, Eq, Structural, Clone, Copy, Debug)]
pub enum CacheTier {
    /// Regenerable caches.
    Routine,
    /// Large downloads that can be fetched again.
    Reinstallable,
    /// App-managed data that is only deleted after review.
    ReviewOnly,
}

/// The colour family a piece of guidance is drawn in.
#[derive(PartialEq, Eq, Structural, Clone, Copy, Debug)]
pub enum Tone {
    Blue,
    Orchid,
    Amber,
    Mint,
}

/// The guidance shown beside a cache location.
#[derive(Clone, Copy, Debug)]
pub struct DecisionGuidance {
    pub classification: &'static str,
    pub delete_scope: &'static str,
    pub impact: &'static str,
    pub recovery: &'static str,
    pub recommendation: &'static str,
    pub tone: Tone,
}

impl View for DecisionGuidance {
    type V = (Seq<char>, Seq<char>, Seq<char>, Seq<char>, Seq<char>, Tone);

    open spec fn view(&self) -> (Seq<char>, Seq<char>, Seq<char>, Seq<char>, Seq<char>, Tone) {
        (
            self.classification@,
            self.delete_scope@,
            self.impact@,
            self.recovery@,
            self.recommendation@,
            self.tone,
        )
    }
}

/// The guidance for a location with this status, label, tier and note: a
/// whitelisted location is never cleaned; eight known locations that are
/// not caches have their own words; the rest follow their tier, with the
/// location's note as the impact.
pub open spec fn guidance_for(
    status: EntryStatus,
    label: Seq<char>,
    tier: CacheTier,
    note: Seq<char>,
) -> (Seq<char>, Seq<char>, Seq<char>, Seq<char>, Seq<char>, Tone) {
    if status == EntryStatus::Whitelisted {
        (
            "USER WHITELIST — NEVER CLEANED"@,
            "Nothing. This path matches ~/.config/mac-cleanup/whitelist and every cleanup path refuses it."@,
            "The stored data stays exactly as it is until the whitelist entry is removed."@,
            "Nothing to recover; no cleanup is attempted while it is whitelisted."@,
            "Remove the line from the whitelist file only if you want this location to become cleanable again."@,
            Tone::Blue,
        )
    } else if label == "Xcode device support"@ {
        (
            "DEVELOPER SUPPORT DATA — NOT A CACHE"@,
            "All installed iOS device-support files in this directory."@,
            "Debugging connected devices may pause while Xcode restores compatible support files."@,
            "Usually downloadable again by Xcode, but older device support may be harder to restore."@,
            "Remove unneeded Developer storage through Xcode or System Settings first."@,
            Tone::Orchid,
        )
    } else if label == "Xcode archives"@ {
        (
            "BUILD ARCHIVES — NOT A CACHE"@,
            "Every Xcode archive here, including archived builds and their symbols."@,
            "You may lose distribution history and dSYMs needed to symbolicate old crash reports."@,
            "Not automatically recoverable; keep archives or symbols required by shipped apps."@,
            "Delete individual obsolete archives from Xcode Organizer instead."@,
            Tone::Orchid,
        )
    } else if label == "Simulator devices"@ {
        (
            "SIMULATOR DEVICES — NOT A CACHE"@,
            "All simulator devices here, including installed apps, settings, and local app data."@,
            "Simulator-only test data and configured devices will be lost."@,
            "Devices can be recreated, but their apps and local data cannot be reconstructed automatically."@,
            "Remove only unwanted devices through Xcode's Devices and Simulators window."@,
            Tone::Orchid,
        )
    } else if label == "Cursor user data"@ {
        (
            "EDITOR USER DATA — NOT A CACHE"@,
            "Cursor settings, keybindings, snippets, workspace state, history, and other user data here."@,
            "Editor configuration and local workspace history may be permanently lost."@,
            "Only data already synced or backed up can be restored reliably."@,
            "Clean up from Cursor or back up this directory before considering full deletion."@,
            Tone::Orchid,
        )
    } else if label == "Chrome DevTools MCP profile"@ {
        (
            "PERSISTENT BROWSER PROFILE — NOT A CACHE"@,
            "The dedicated Chrome profile, including sessions, cookies, settings, and site data."@,
            "MCP browser sessions and authenticated state stored in this profile will be lost."@,
            "The profile can be recreated, but unsynced session and site data cannot be restored automatically."@,
            "Keep it unless you intentionally want to reset the Chrome DevTools MCP browser profile."@,
            Tone::Orchid,
        )
    } else if label == "OrbStack data"@ {
        (
            "CONTAINER AND VM DATA — NOT A CACHE"@,
            "All OrbStack containers, images, Linux machines, and volumes stored here."@,
            "Local services and persistent volume or machine data can be permanently lost."@,
            "Images may be pulled again; deleted machines and volume data are not automatically recoverable."@,
            "Open OrbStack and remove unused items individually; use d here only to reset all local OrbStack data."@,
            Tone::Orchid,
        )
    } else if label == "Telegram local data"@ {
        (
            "MESSAGING APP DATA — NOT A CACHE"@,
            "All Telegram account and media data stored inside this local directory."@,
            "The app may require sign-in and downloads again; local-only state may be lost."@,
            "Cloud content may resync, but local-only data is not guaranteed to return."@,
            "Use Telegram Settings → Data and Storage → Storage Usage first."@,
            Tone::Orchid,
        )
    } else if label == "Hugging Face models"@ {
        (
            "REINSTALLABLE MODEL DOWNLOADS"@,
            "Cached Hugging Face repository snapshots, model files, and related hub data."@,
            "Offline model use will stop and future runs may need a large download."@,
            "Usually downloadable again if the repository, revision, access, and network remain available."@,
            "Prefer `hf cache rm <repo> --dry-run` or `hf cache prune --dry-run` to preview selective cleanup."@,
            Tone::Amber,
        )
    } else if tier == CacheTier::ReviewOnly {
        (
            "APP-MANAGED DATA — NOT A CACHE"@,
            "Every item inside this app-managed directory; only the containing folder remains."@,
            note,
            "Some contents may not be recoverable unless they are synced or backed up elsewhere."@,
            "Prefer the owning application's storage controls and delete only what you recognize."@,
            Tone::Orchid,
        )
    } else if tier == CacheTier::Reinstallable {
        (
            "LARGE REINSTALLABLE DOWNLOADS"@,
            "Every cached download inside this directory; the containing folder remains."@,
            note,
            "Usually downloadable again, but restoring it needs network access, time, and possibly credentials."@,
            "Delete only if the saved space is worth the later download."@,
            Tone::Amber,
        )
    } else {
        (
            "REGENERABLE CACHE"@,
            "Every cache item inside this directory; the containing folder remains."@,
            note,
            "The owning application or tool is expected to regenerate the contents when needed."@,
            "Reasonable to delete for space after closing the related application or tool."@,
            Tone::Mint,
        )
    }
}

/// The eight known locations that have words of their own.
pub open spec fn named_location(label: Seq<char>) -> bool {
    ||| label == "Xcode device support"@
    ||| label == "Xcode archives"@
    ||| label == "Simulator devices"@
    ||| label == "Cursor user data"@
    ||| label == "Chrome DevTools MCP profile"@
    ||| label == "OrbStack data"@
    ||| label == "Telegram local data"@
    ||| label == "Hugging Face models"@
}

/// The colour family of each tier.
pub open spec fn tier_tone(tier: CacheTier) -> Tone {
    match tier {
        CacheTier::Routine => Tone::Mint,
        CacheTier::Reinstallable => Tone::Amber,
        CacheTier::ReviewOnly => Tone::Orchid,
    }
}

/// Only a regenerable cache is drawn as one (mint): never a whitelisted
/// location, a reinstallable download or app-managed data. Amber is for
/// reinstallable downloads and the model downloads alone. A location that
/// is not whitelisted and has no words of its own is drawn in its tier's
/// colour with its own note as the impact, and two such locations of
/// different tiers are never classified alike.
pub proof fn lemma_tier_decides_guidance(
    status: EntryStatus,
    label: Seq<char>,
    tier: CacheTier,
    other: CacheTier,
    note: Seq<char>,
)
    ensures
        guidance_for(status, label, tier, note).5 == Tone::Mint ==> tier == CacheTier::Routine
            && status != EntryStatus::Whitelisted,
        guidance_for(status, label, tier, note).5 == Tone::Amber ==> tier
            == CacheTier::Reinstallable || label == "Hugging Face models"@,
        status != EntryStatus::Whitelisted && !named_location(label) ==> guidance_for(
            status,
            label,
            tier,
            note,
        ).5 == tier_tone(tier) && guidance_for(status, label, tier, note).2 == note,
        status != EntryStatus::Whitelisted && !named_location(label) && tier != other
            ==> guidance_for(status, label, tier, note).0 != guidance_for(status, label, other, note).0,
{
    reveal_strlit("APP-MANAGED DATA — NOT A CACHE");
    reveal_strlit("LARGE REINSTALLABLE DOWNLOADS");
    reveal_strlit("REGENERABLE CACHE");
    let (a, b) = (
        guidance_for(status, label, tier, note).0,
        guidance_for(status, label, other, note).0,
    );
    if status != EntryStatus::Whitelisted && !named_location(label) && tier != other {
        assert(a[0] != b[0]);
    }
}

/// The guidance for the details of a cache location.
pub fn decision_guidance(
    status: EntryStatus,
    label: &str,
    tier: CacheTier,
    note: &'static str,
) -> (res: DecisionGuidance)
    ensures
        res@ == guidance_for(status, label@, tier, note@),
{
    if status == EntryStatus::Whitelisted {
        DecisionGuidance {
            classification: "USER WHITELIST — NEVER CLEANED",
            delete_scope: "Nothing. This path matches ~/.config/mac-cleanup/whitelist and every cleanup path refuses it.",
            impact: "The stored data stays exactly as it is until the whitelist entry is removed.",
            recovery: "Nothing to recover; no cleanup is attempted while it is whitelisted.",
            recommendation: "Remove the line from the whitelist file only if you want this location to become cleanable again.",
            tone: Tone::Blue,
        }
    } else if str_eq(label, "Xcode device support") {
        DecisionGuidance {
            classification: "DEVELOPER SUPPORT DATA — NOT A CACHE",
            delete_scope: "All installed iOS device-support files in this directory.",
            impact: "Debugging connected devices may pause while Xcode restores compatible support files.",
            recovery: "Usually downloadable again by Xcode, but older device support may be harder to restore.",
            recommendation: "Remove unneeded Developer storage through Xcode or System Settings first.",
            tone: Tone::Orchid,
        }
    } else if str_eq(label, "Xcode archives") {
        DecisionGuidance {
            classification: "BUILD ARCHIVES — NOT A CACHE",
            delete_scope: "Every Xcode archive here, including archived builds and their symbols.",
            impact: "You may lose distribution history and dSYMs needed to symbolicate old crash reports.",
            recovery: "Not automatically recoverable; keep archives or symbols required by shipped apps.",
            recommendation: "Delete individual obsolete archives from Xcode Organizer instead.",
            tone: Tone::Orchid,
        }
    } else if str_eq(label, "Simulator devices") {
        DecisionGuidance {
            classification: "SIMULATOR DEVICES — NOT A CACHE",
            delete_scope: "All simulator devices here, including installed apps, settings, and local app data.",
            impact: "Simulator-only test data and configured devices will be lost.",
            recovery: "Devices can be recreated, but their apps and local data cannot be reconstructed automatically.",
            recommendation: "Remove only unwanted devices through Xcode's Devices and Simulators window.",
            tone: Tone::Orchid,
        }
    } else if str_eq(label, "Cursor user data") {
        DecisionGuidance {
            classification: "EDITOR USER DATA — NOT A CACHE",
            delete_scope: "Cursor settings, keybindings, snippets, workspace state, history, and other user data here.",
            impact: "Editor configuration and local workspace history may be permanently lost.",
            recovery: "Only data already synced or backed up can be restored reliably.",
            recommendation: "Clean up from Cursor or back up this directory before considering full deletion.",
            tone: Tone::Orchid,
        }
    } else if str_eq(label, "Chrome DevTools MCP profile") {
        DecisionGuidance {
            classification: "PERSISTENT BROWSER PROFILE — NOT A CACHE",
            delete_scope: "The dedicated Chrome profile, including sessions, cookies, settings, and site data.",
            impact: "MCP browser sessions and authenticated state stored in this profile will be lost.",
            recovery: "The profile can be recreated, but unsynced session and site data cannot be restored automatically.",
            recommendation: "Keep it unless you intentionally want to reset the Chrome DevTools MCP browser profile.",
            tone: Tone::Orchid,
        }
    } else if str_eq(label, "OrbStack data") {
        DecisionGuidance {
            classification: "CONTAINER AND VM DATA — NOT A CACHE",
            delete_scope: "All OrbStack containers, images, Linux machines, and volumes stored here.",
            impact: "Local services and persistent volume or machine data can be permanently lost.",
            recovery: "Images may be pulled again; deleted machines and volume data are not automatically recoverable.",
            recommendation: "Open OrbStack and remove unused items individually; use d here only to reset all local OrbStack data.",
            tone: Tone::Orchid,
        }
    } else if str_eq(label, "Telegram local data") {
        DecisionGuidance {
            classification: "MESSAGING APP DATA — NOT A CACHE",
            delete_scope: "All Telegram account and media data stored inside this local directory.",
            impact: "The app may require sign-in and downloads again; local-only state may be lost.",
            recovery: "Cloud content may resync, but local-only data is not guaranteed to return.",
            recommendation: "Use Telegram Settings → Data and Storage → Storage Usage first.",
            tone: Tone::Orchid,
        }
    } else if str_eq(label, "Hugging Face models") {
        DecisionGuidance {
            classification: "REINSTALLABLE MODEL DOWNLOADS",
            delete_scope: "Cached Hugging Face repository snapshots, model files, and related hub data.",
            impact: "Offline model use will stop and future runs may need a large download.",
            recovery: "Usually downloadable again if the repository, revision, access, and network remain available.",
            recommendation: "Prefer `hf cache rm <repo> --dry-run` or `hf cache prune --dry-run` to preview selective cleanup.",
            tone: Tone::Amber,
        }
    } else if tier == CacheTier::ReviewOnly {
        DecisionGuidance {
            classification: "APP-MANAGED DATA — NOT A CACHE",
            delete_scope: "Every item inside this app-managed directory; only the containing folder remains.",
            impact: note,
            recovery: "Some contents may not be recoverable unless they are synced or backed up elsewhere.",
            recommendation: "Prefer the owning application's storage controls and delete only what you recognize.",
            tone: Tone::Orchid,
        }
    } else if tier == CacheTier::Reinstallable {
        DecisionGuidance {
            classification: "LARGE REINSTALLABLE DOWNLOADS",
            delete_scope: "Every cached download inside this directory; the containing folder remains.",
            impact: note,
            recovery: "Usually downloadable again, but restoring it needs network access, time, and possibly credentials.",
            recommendation: "Delete only if the saved space is worth the later download.",
            tone: Tone::Amber,
        }
    } else {
        DecisionGuidance {
            classification: "REGENERABLE CACHE",
            delete_scope: "Every cache item inside this directory; the containing folder remains.",
            impact: note,
            recovery: "The owning application or tool is expected to regenerate the contents when needed.",
            recommendation: "Reasonable to delete for space after closing the related application or tool.",
            tone: Tone::Mint,
        }
    }
}

/// The line that says what a deletion of the location would take.
pub open spec fn action_text(analysis_only: bool, status: EntryStatus) -> Seq<char> {
    if analysis_only {
        "Read-only (--analyze); restart without --analyze if you decide to delete."@
    } else if status == EntryStatus::Review {
        "Prefer the recommendation above. d requires typing DELETE and permanently erases all listed data."@
    } else if status == EntryStatus::Optional {
        "d opts in only this item and opens a final permanent-deletion confirmation."@
    } else if status == EntryStatus::Ready {
        "d opens a final permanent-deletion confirmation for this item."@
    } else {
        "Deletion is disabled until the safety issue shown above is resolved and the item is rescanned."@
    }
}

/// What deleting the location in the details would take.
pub fn decision_action(analysis_only: bool, status: EntryStatus) -> (res: &'static str)
    ensures
        res@ == action_text(analysis_only, status),
{
    if analysis_only {
        "Read-only (--analyze); restart without --analyze if you decide to delete."
    } else if status == EntryStatus::Review {
        "Prefer the recommendation above. d requires typing DELETE and permanently erases all listed data."
    } else if status == EntryStatus::Optional {
        "d opts in only this item and opens a final permanent-deletion confirmation."
    } else if status == EntryStatus::Ready {
        "d opens a final permanent-deletion confirmation for this item."
    } else {
        "Deletion is disabled until the safety issue shown above is resolved and the item is rescanned."
    }
}

} // verus!
