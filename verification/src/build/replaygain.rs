//! ReplayGain tagging with rsgain.

use vstd::prelude::*;
use vstd::string::*;
use crate::text::strings_view;

verus! {

/// How rsgain clips peaks.
#[derive(Clone, Copy, PartialEq, Eq)]
pub enum ClipMode {
    Disabled,
    PositiveGain,
    AlwaysEnabled,
}

/// How built files are tagged with ReplayGain. The target loudness is held as the bits
/// of its `f32` value.
pub struct Replaygain {
    pub rsgain_command: String,
    pub album_gain: bool,
    pub target_lufs_bits: u32,
    pub clip_mode: ClipMode,
}

/// An error of ReplayGain tagging.
pub enum ReplaygainError {
    /// rsgain could not be run.
    Execute,
    /// rsgain failed, printing `stderr`.
    Rsgain { stderr: String },
}

/// The rsgain flag of a clip mode.
pub open spec fn clip_flag(m: ClipMode) -> Seq<char> {
    match m {
        ClipMode::Disabled => "n"@,
        ClipMode::PositiveGain => "p"@,
        ClipMode::AlwaysEnabled => "a"@,
    }
}

/// Each clip mode gives rsgain a flag of its own: `n` for no clipping, `p`
/// for clipping positive gain, `a` for always clipping; no two modes share a
/// flag.
pub proof fn lemma_clip_flags(m1: ClipMode, m2: ClipMode)
    ensures
        m1 != m2 ==> clip_flag(m1) != clip_flag(m2),
        clip_flag(m1).len() == 1,
        clip_flag(ClipMode::Disabled) == seq!['n'],
        clip_flag(ClipMode::PositiveGain) == seq!['p'],
        clip_flag(ClipMode::AlwaysEnabled) == seq!['a'],
{
    reveal_strlit("n");
    reveal_strlit("p");
    reveal_strlit("a");
    assert(clip_flag(ClipMode::Disabled) =~= seq!['n']);
    assert(clip_flag(ClipMode::PositiveGain) =~= seq!['p']);
    assert(clip_flag(ClipMode::AlwaysEnabled) =~= seq!['a']);
    if m1 != m2 {
        assert(clip_flag(m1)[0] != clip_flag(m2)[0]);
    }
}

impl Replaygain {
    /// The arguments of the rsgain command that tags `input_files`, with the
    /// target loudness rendered as `target_lufs`:
    /// `custom -s i [-a] -l <target_lufs> -c <n|p|a> <input_files>...`.
    pub fn arguments(&self, target_lufs: &str, input_files: &Vec<String>) -> (r: Vec<String>)
        ensures
            strings_view(r@) == (if self.album_gain {
                seq!["custom"@, "-s"@, "i"@, "-a"@]
            } else {
                seq!["custom"@, "-s"@, "i"@]
            }) + seq!["-l"@, target_lufs@, "-c"@, clip_flag(self.clip_mode)] + strings_view(input_files@),
    {
        let mut r: Vec<String> = Vec::new();
        r.push(String::from_str("custom"));
        r.push(String::from_str("-s"));
        r.push(String::from_str("i"));
        if self.album_gain {
            r.push(String::from_str("-a"));
        }
        r.push(String::from_str("-l"));
        r.push(String::from_str(target_lufs));
        r.push(String::from_str("-c"));
        let flag = match self.clip_mode {
            ClipMode::Disabled => "n",
            ClipMode::PositiveGain => "p",
            ClipMode::AlwaysEnabled => "a",
        };
        r.push(String::from_str(flag));
        let ghost head = strings_view(r@);
        proof {
            assert(head =~= (if self.album_gain {
                seq!["custom"@, "-s"@, "i"@, "-a"@]
            } else {
                seq!["custom"@, "-s"@, "i"@]
            }) + seq!["-l"@, target_lufs@, "-c"@, clip_flag(self.clip_mode)]);
        }
        let mut i: usize = 0;
        while i < input_files.len()
            invariant
                i <= input_files@.len(),
                strings_view(r@) == head + strings_view(input_files@.take(i as int)),
            decreases input_files@.len() - i,
        {
            let ghost prev = r@;
            r.push(input_files[i].clone());
            proof {
                assert(r@ =~= prev.push(input_files@[i as int]));
                assert(strings_view(r@) =~= strings_view(prev).push(input_files@[i as int]@));
                assert(strings_view(input_files@.take(i + 1)) =~= strings_view(input_files@.take(i as int)).push(
                    input_files@[i as int]@,
                ));
                assert(strings_view(r@) =~= head + strings_view(input_files@.take(i + 1)));
            }
            i += 1;
        }
        proof {
            assert(input_files@.take(i as int) =~= input_files@);
        }
        r
    }

    /// A copy of the tagging settings.
    pub fn duplicate(&self) -> (r: Replaygain)
        ensures
            r == *self,
    {
        Replaygain {
            rsgain_command: self.rsgain_command.clone(),
            album_gain: self.album_gain,
            target_lufs_bits: self.target_lufs_bits,
            clip_mode: self.clip_mode,
        }
    }
}

} // verus!
