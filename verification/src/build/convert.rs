//! Conversion of source audio files with ffmpeg.

use vstd::prelude::*;
use vstd::string::*;
use crate::text::{decimal, decimal_string, strings_view};

verus! {

/// How source audio files are converted.
pub struct Convert {
    pub ffmpeg_command: String,
    pub target_format: String,
    pub sample_rate: u32,
    pub sample_format: String,
}

/// An error of a conversion.
pub enum ConvertError {
    /// ffmpeg could not be run for `file`.
    Execute { file: String },
    /// ffmpeg failed for `file`, printing `stderr`.
    Ffmpeg { file: String, stderr: String },
}

impl Convert {
    /// The arguments of the ffmpeg command that converts `input_file` into
    /// `output_file`: `-i <input_file> -ar <sample_rate> -sample_fmt <sample_format> <output_file>`.
    pub fn arguments(&self, input_file: &str, output_file: &str) -> (r: Vec<String>)
        ensures
            strings_view(r@) == seq![
                "-i"@,
                input_file@,
                "-ar"@,
                decimal(self.sample_rate as nat),
                "-sample_fmt"@,
                self.sample_format@,
                output_file@,
            ],
    {
        let mut r: Vec<String> = Vec::new();
        r.push(String::from_str("-i"));
        r.push(String::from_str(input_file));
        r.push(String::from_str("-ar"));
        r.push(decimal_string(self.sample_rate as usize));
        r.push(String::from_str("-sample_fmt"));
        r.push(self.sample_format.clone());
        r.push(String::from_str(output_file));
        proof {
            assert(strings_view(r@) =~= seq![
                "-i"@,
                input_file@,
                "-ar"@,
                decimal(self.sample_rate as nat),
                "-sample_fmt"@,
                self.sample_format@,
                output_file@,
            ]);
        }
        r
    }

    /// A copy of the conversion settings.
    pub fn duplicate(&self) -> (c: Convert)
        ensures
            c == *self,
    {
        Convert {
            ffmpeg_command: self.ffmpeg_command.clone(),
            target_format: self.target_format.clone(),
            sample_rate: self.sample_rate,
            sample_format: self.sample_format.clone(),
        }
    }
}

} // verus!
