//! The layout of the boot volume that the emulator is given.

use crate::paths::join;
use crate::paths::path_join;
use vstd::prelude::*;

verus! {

/// Where the files of the boot volume go.
#[derive(Debug)]
pub struct EspLayout {
    /// The root of the volume: the directory `esp` of the build's target
    /// directory.
    pub root: String,
    /// The directory `EFI/BOOT` of the volume.
    pub boot_dir: String,
    /// The place of the executable: `BOOTX64.EFI` in `boot_dir`.
    pub boot_image: String,
    /// For each extra file, in the order given, its source and its place in
    /// the volume.
    pub files: Vec<(String, String)>,
}

/// The mathematical model of an [`EspLayout`].
pub struct EspLayoutView {
    pub root: Seq<char>,
    pub boot_dir: Seq<char>,
    pub boot_image: Seq<char>,
    pub files: Seq<(Seq<char>, Seq<char>)>,
}

impl View for EspLayout {
    type V = EspLayoutView;

    open spec fn view(&self) -> EspLayoutView {
        EspLayoutView {
            root: self.root@,
            boot_dir: self.boot_dir@,
            boot_image: self.boot_image@,
            files: self.files.deep_view(),
        }
    }
}

/// The root of the boot volume under a target directory.
pub open spec fn esp_root(target_dir: Seq<char>) -> Seq<char> {
    path_join(target_dir, "esp"@)
}

/// The layout of the boot volume under a target directory: each extra file
/// keeps its source and goes to its destination taken from the volume's root.
pub open spec fn esp_layout(
    target_dir: Seq<char>,
    copy: Seq<(Seq<char>, Seq<char>)>,
) -> EspLayoutView {
    let root = esp_root(target_dir);
    let boot_dir = path_join(path_join(root, "EFI"@), "BOOT"@);
    EspLayoutView {
        root,
        boot_dir,
        boot_image: path_join(boot_dir, "BOOTX64.EFI"@),
        files: Seq::new(copy.len(), |i: int| (copy[i].0, path_join(root, copy[i].1))),
    }
}

impl EspLayout {
    /// Lays out the boot volume under `target_dir` for the extra files
    /// `copy`, given as pairs of source and destination.
    pub fn plan(target_dir: &str, copy: &Vec<(String, String)>) -> (layout: EspLayout)
        ensures
            layout@ == esp_layout(target_dir@, copy.deep_view()),
    {
        let root = join(target_dir, "esp");
        let efi = join(root.as_str(), "EFI");
        let boot_dir = join(efi.as_str(), "BOOT");
        let boot_image = join(boot_dir.as_str(), "BOOTX64.EFI");
        let ghost wanted = esp_layout(target_dir@, copy.deep_view()).files;
        let mut files: Vec<(String, String)> = Vec::new();
        let mut i: usize = 0;
        while i < copy.len()
            invariant
                i <= copy.len(),
                root@ == esp_root(target_dir@),
                wanted == esp_layout(target_dir@, copy.deep_view()).files,
                files.len() == i,
                forall|j: int| 0 <= j < i ==> (#[trigger] files[j]).deep_view() == wanted[j],
            decreases copy.len() - i,
        {
            assert(copy.deep_view()[i as int] == copy@[i as int].deep_view());
            let source = copy[i].0.clone();
            let destination = join(root.as_str(), copy[i].1.as_str());
            files.push((source, destination));
            i += 1;
        }
        assert(files.deep_view() =~= wanted);
        EspLayout { root, boot_dir, boot_image, files }
    }
}

} // verus!
