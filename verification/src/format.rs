use vstd::prelude::*;

verus! {

/// The closed set of target encodings an export can produce.
#[derive(Clone, Copy, Debug, PartialEq, Eq, Structural)]
pub enum ExportFormat {
    Png,
    Jpg,
}

impl ExportFormat {
    /// The output file extension of this format, as characters.
    pub open spec fn extension_spec(self) -> Seq<char> {
        match self {
            ExportFormat::Png => "png"@,
            ExportFormat::Jpg => "jpg"@,
        }
    }

    /// The output file extension of this format, as bytes.
    pub open spec fn extension_bytes_spec(self) -> Seq<u8> {
        match self {
            ExportFormat::Png => seq![112u8, 110u8, 103u8],
            ExportFormat::Jpg => seq![106u8, 112u8, 103u8],
        }
    }

    /// Whether this format is the JPEG encoding.
    pub open spec fn is_jpeg(self) -> bool {
        self == ExportFormat::Jpg
    }

    /// The file extension used for output files in this format.
    pub fn extension(&self) -> (r: &'static str)
        ensures
            r@ == self.extension_spec(),
    {
        match self {
            ExportFormat::Png => "png",
            ExportFormat::Jpg => "jpg",
        }
    }

    /// The extension as bytes, for building output paths.
    pub fn extension_bytes(&self) -> (r: Vec<u8>)
        ensures
            r@ == self.extension_bytes_spec(),
    {
        match self {
            ExportFormat::Png => vec![112u8, 110u8, 103u8],
            ExportFormat::Jpg => vec![106u8, 112u8, 103u8],
        }
    }
}

} // verus!
