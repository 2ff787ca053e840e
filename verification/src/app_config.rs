use vstd::prelude::*;

verus! {

/// Where the player puts the wallpaper for SDDM, and which one it showed before.
pub struct SddmConfig {
    pub pre_sddm_wallpaper_id: Option<String>,
    pub target_path: String,
}

/// Where the player puts the wallpaper for the lock screen, and which one it showed before.
pub struct WallockConfig {
    pub pre_wallock_wallpaper_id: Option<String>,
    pub target_path: String,
}

} // verus!
