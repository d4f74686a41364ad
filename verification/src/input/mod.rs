//! The batch of pending records and the shapes it is read from.

pub mod csv;
pub mod models;
pub mod xlsx;

use crate::cli::ResourceType;
use crate::text::{lowercased, same_text, to_lowercase};
use vstd::prelude::*;
use vstd::string::*;

verus! {

/// The shape of an input file and how to read it.
#[derive(Debug, Clone, Copy, PartialEq, Eq, Structural)]
pub enum FileFormat {
    /// A YAML file, which says itself what it holds.
    Yaml,
    /// A CSV file of records of the given kind.
    Csv(ResourceType),
    /// A workbook: its first sheet holds records of the given kind, or,
    /// without a kind, each sheet says by its name what it holds.
    Xlsx(Option<ResourceType>),
}

/// The message for a CSV file without a kind.
pub open spec fn type_required_text() -> Seq<char> {
    "--type is required for CSV files.\n  Use: --type objective | epic | story"@
}

/// The message for a file of an unknown kind.
pub open spec fn unsupported_text(extension: Seq<char>) -> Seq<char> {
    "Unsupported file extension '."@ + extension + "'.  Use .yaml, .csv, or .xlsx"@
}

/// The shape of a file by its extension, which is compared in lowercase:
/// `yaml` and `yml`, `csv`, `xlsx` and `xls`. A CSV file needs a kind.
pub open spec fn format_of(extension: Seq<char>, kind: Option<ResourceType>) -> Result<
    FileFormat,
    Seq<char>,
> {
    let ext = lowercased(extension);
    if ext == "yaml"@ || ext == "yml"@ {
        Ok(FileFormat::Yaml)
    } else if ext == "csv"@ {
        match kind {
            Some(k) => Ok(FileFormat::Csv(k)),
            None => Err(type_required_text()),
        }
    } else if ext == "xlsx"@ || ext == "xls"@ {
        Ok(FileFormat::Xlsx(kind))
    } else {
        Err(unsupported_text(ext))
    }
}

/// The shape of the file with the extension `extension`, the empty text
/// standing for none, and how to read it with the kind `resource_type`.
pub fn detect_format(extension: &str, resource_type: Option<ResourceType>) -> (r: Result<
    FileFormat,
    String,
>)
    ensures
        match r {
            Ok(format) => format_of(extension@, resource_type) == Ok::<FileFormat, Seq<char>>(
                format,
            ),
            Err(message) => format_of(extension@, resource_type) == Err::<FileFormat, Seq<char>>(
                message@,
            ),
        },
{
    let ext = to_lowercase(extension);
    if same_text(ext.as_str(), "yaml") || same_text(ext.as_str(), "yml") {
        Ok(FileFormat::Yaml)
    } else if same_text(ext.as_str(), "csv") {
        match resource_type {
            Some(kind) => Ok(FileFormat::Csv(kind)),
            None => Err(
                "--type is required for CSV files.\n  Use: --type objective | epic | story".to_owned(),
            ),
        }
    } else if same_text(ext.as_str(), "xlsx") || same_text(ext.as_str(), "xls") {
        Ok(FileFormat::Xlsx(resource_type))
    } else {
        let mut message = "Unsupported file extension '.".to_owned();
        message.append(ext.as_str());
        message.append("'.  Use .yaml, .csv, or .xlsx");
        Err(message)
    }
}

} // verus!
