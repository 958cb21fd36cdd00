//! The provisioning tool as the library sees it.

use vstd::prelude::*;

use crate::guard::BringUp;
use crate::guard::TemporaryPowerOn;
use crate::guard::spec_bring_up;
use crate::parser::ParseError;
use crate::parser::SpecParseError;
use crate::parser::VagrantBox;
use crate::parser::parse_status_output;
use crate::parser::records_view;
use crate::parser::spec_parse_status;
use crate::status::BoxStatus;

verus! {

/// A handle on the provisioning tool.
pub struct Vagrant {
    /// Filesystem path of the tool's binary, used by the driver to spawn
    /// it.
    pub path: Vec<u8>,
}

impl Vagrant {
    /// Turns the captured output of the tool's status command, run in
    /// `directory`, into that directory's box records in listing order.
    pub fn get_boxes(&self, directory: &[u8], status_output: &[u8]) -> (r: Result<
        Vec<(VagrantBox, BoxStatus)>,
        ParseError,
    >)
        ensures
            (r matches Ok(v) ==> spec_parse_status(status_output@) == Ok::<
                Seq<(Seq<u8>, BoxStatus)>,
                SpecParseError,
            >(records_view(v@))),
            (r matches Ok(v) ==> forall|i: int|
                0 <= i < v@.len() ==> (#[trigger] v@[i]).0.path@ == directory@
                    && v@[i].0.name@.len() > 0),
            (r matches Err(e) ==> spec_parse_status(status_output@) == Err::<
                Seq<(Seq<u8>, BoxStatus)>,
                SpecParseError,
            >(e@)),
    {
        parse_status_output(status_output, directory)
    }

    /// Takes on the restore obligation for `vagrant_box`, found resting in
    /// `status`, and names the bring-up subcommand the driver must issue.
    /// Never called for a running box.
    pub fn temporary_power_on(&self, _vagrant_box: &VagrantBox, status: BoxStatus) -> (r: (
        TemporaryPowerOn,
        BringUp,
    ))
        requires
            !status.spec_powered_on(),
        ensures
            r.0.original_status() == status,
            !r.0.is_released(),
            r.1 == spec_bring_up(status),
    {
        TemporaryPowerOn::create(status)
    }
}

} // verus!
