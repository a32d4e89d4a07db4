//! The envelope that carries an endpoint to the export pane, and the choice
//! of format that the pane offers.

use vstd::prelude::*;

use crate::entities::{EndpointData, RequestExportType};
use crate::service::{CurlService, generate_spec};

verus! {

/// The formats that the export pane offers.
#[derive(Clone, Copy, Debug, PartialEq, Eq, Structural)]
pub enum ExportType {
    /// No export.
    Nothing,
    /// A `curl` command.
    Curl,
}

impl Default for ExportType {
    /// No export.
    fn default() -> (format: ExportType)
        ensures
            format == ExportType::Nothing,
    {
        ExportType::Nothing
    }
}

impl ExportType {
    /// The formats in the order in which the pane lists them.
    pub open spec fn listed() -> Seq<ExportType> {
        seq![ExportType::Nothing, ExportType::Curl]
    }

    /// The formats in the order in which the pane lists them.
    pub fn types() -> (all: [ExportType; 2])
        ensures
            all@ == Self::listed(),
    {
        let all = [ExportType::Nothing, ExportType::Curl];
        proof {
            assert(all@ =~= Self::listed());
        }
        all
    }

    /// The format at a position of the list, if there is one.
    pub fn at(position: u32) -> (r: Option<ExportType>)
        ensures
            r == if position < Self::listed().len() {
                Some(Self::listed()[position as int])
            } else {
                None
            },
    {
        if position == 0 {
            Some(ExportType::Nothing)
        } else if position == 1 {
            Some(ExportType::Curl)
        } else {
            None
        }
    }

    /// The position of the format in the list.
    pub fn position(self) -> (p: u32)
        ensures
            p < Self::listed().len(),
            Self::listed()[p as int] == self,
    {
        match self {
            ExportType::Nothing => 0,
            ExportType::Curl => 1,
        }
    }

    /// The format that an envelope asks for.
    pub open spec fn asked_by(envelope: RequestExportType) -> ExportType {
        match envelope {
            RequestExportType::Nothing => ExportType::Nothing,
            RequestExportType::Curl(_) => ExportType::Curl,
        }
    }

    /// The format that an envelope asks for.
    pub fn of_request(envelope: &RequestExportType) -> (r: ExportType)
        ensures
            r == Self::asked_by(*envelope),
    {
        match envelope {
            RequestExportType::Nothing => ExportType::Nothing,
            RequestExportType::Curl(_) => ExportType::Curl,
        }
    }

    /// The page of the pane that shows the format: `none` or `code`.
    pub fn page(self) -> (name: &'static str)
        ensures
            name@ == match self {
                ExportType::Nothing => "none"@,
                ExportType::Curl => "code"@,
            },
    {
        match self {
            ExportType::Nothing => "none",
            ExportType::Curl => "code",
        }
    }

    /// The language in which the code of the format is shown, by its
    /// identifier.
    pub fn language_id(self) -> (id: Option<&'static str>)
        ensures
            match self {
                ExportType::Nothing => id is None,
                ExportType::Curl => id matches Some(s) && s@ == "shellscript"@,
            },
    {
        match self {
            ExportType::Nothing => None,
            ExportType::Curl => Some("shellscript"),
        }
    }

    /// What a pane of this format hands back when asked for its envelope:
    /// an endpoint with nothing in it for a format, nothing for none.
    pub fn blank_request(self) -> (envelope: RequestExportType)
        ensures
            Self::asked_by(envelope) == self,
            envelope matches RequestExportType::Curl(data) ==> data@ == EndpointData::blank(),
    {
        match self {
            ExportType::Nothing => RequestExportType::Nothing,
            ExportType::Curl => RequestExportType::Curl(EndpointData::default()),
        }
    }

    /// Whether the pane has anything to show for the format.
    pub fn shows_code(self) -> (r: bool)
        ensures
            r == (self != ExportType::Nothing),
    {
        match self {
            ExportType::Nothing => false,
            ExportType::Curl => true,
        }
    }
}

/// Wraps a copy of the endpoint for the export pane.
pub fn to_export_type(endpoint: &EndpointData) -> (envelope: RequestExportType)
    ensures
        envelope matches RequestExportType::Curl(data) && data@ == endpoint@,
{
    RequestExportType::Curl(endpoint.clone())
}

/// The text that the export pane shows for an envelope: the command of the
/// endpoint it carries, and nothing where it carries none or where the
/// command cannot be made.
pub fn from_export_type(envelope: &RequestExportType) -> (text: Option<String>)
    ensures
        match *envelope {
            RequestExportType::Nothing => text is None,
            RequestExportType::Curl(data) => match generate_spec(data@) {
                Ok(command) => text matches Some(t) && t@ == command,
                Err(_) => text is None,
            },
        },
{
    match envelope {
        RequestExportType::Nothing => None,
        RequestExportType::Curl(data) => {
            let service = CurlService::new(data.clone());
            match service.generate() {
                Ok(command) => Some(command),
                Err(_) => None,
            }
        },
    }
}

} // verus!
