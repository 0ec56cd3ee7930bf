use vstd::prelude::*;

verus! {

/// The platform this build targets: Linux only.  Opening folders and
/// registering the autostart entry are OS calls the unverified shell
/// makes — on other systems they would go through other OS facilities,
/// none of which this library models; what the library contributes is the
/// exact content of the autostart entry.
pub struct LinuxPlatform;

impl LinuxPlatform {
    /// The desktop-entry file that autostart registration writes for the
    /// given executable path.
    pub fn desktop_entry(&self, exec_path: &str) -> (r: String)
        ensures
            r@ == "[Desktop Entry]\nType=Application\nName=VRC OSC Manager\nExec="@ + exec_path@
                + "\nX-GNOME-Autostart-enabled=true\n"@,
    {
        String::from_str("[Desktop Entry]\nType=Application\nName=VRC OSC Manager\nExec=").concat(
            exec_path,
        ).concat("\nX-GNOME-Autostart-enabled=true\n")
    }

    /// The file name the autostart entry is registered under.
    pub fn auto_start_file_name(&self) -> (r: &'static str)
        ensures
            r@ == "vrc-osc-manager.desktop"@,
    {
        "vrc-osc-manager.desktop"
    }
}

/// The platform of this build.
pub fn get_platform() -> LinuxPlatform {
    LinuxPlatform
}

} // verus!
