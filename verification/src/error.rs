use vstd::prelude::*;

verus! {

/// A node of the wallpaper engine configuration that the library reads.
#[derive(Clone, Copy, Debug, PartialEq, Eq, Structural)]
pub enum Node {
    Steamuser,
    General,
    Playlists,
    Profiles,
    Browser,
    Folders,
    Settings,
    Mode,
    Delay,
    Order,
    Items,
    SelectedWallpapers,
    Monitor0,
    File,
}

/// Why a wallpaper engine configuration could not be read.
#[derive(Clone, Copy, Debug, PartialEq, Eq, Structural)]
pub enum ConfigError {
    /// The node is not there.
    Missing(Node),
    /// The node is not an array.
    NotArray(Node),
    /// The node is not a string.
    NotString(Node),
    /// The node is not a whole number in `u64`.
    NotU64(Node),
    /// No playlist has the requested name.
    NoSuchPlaylist,
    /// No profile has the requested name.
    NoSuchProfile,
    /// An element of a playlist's items is not a string.
    ItemNotString,
    /// A playlist item's path has no directory name.
    NoWallpaperId,
    /// A profile's wallpaper file has no directory name.
    NoDirName,
    /// A folder that is to be merged has no object of items.
    FolderItemsNotObject,
}

} // verus!
