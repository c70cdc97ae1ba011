//! Processor frequency scaling: where the scaling files live, how their
//! contents are read as frequencies, and how frequencies are displayed.
//!
//! Discovery walks the processor entries of the sysfs tree; whether a path
//! exists or is a directory is observed by the binary and handed in, while
//! every decision made on those observations is taken here.

use vstd::prelude::*;
use vstd::string::*;
use crate::text::{digit_str, parse_u64, spec_decimal, spec_digit, spec_parse_u64, spec_trimmed,
    trim, u64_to_string};

verus! {

/// A frequency in kilohertz, as the kernel reports it.
pub type Frequency = u64;

/// How reading a frequency fails.
#[derive(Debug, PartialEq, Eq)]
pub enum Error {
    /// The processor directories could not be enumerated.
    Discover,
    /// A scaling file did not hold a decimal frequency.
    InvalidFrequency,
    /// A scaling file held bytes that are not valid UTF-8 text.
    MalformedFrequency,
    /// A processor lacks the named scaling frequency file.
    MissingScalingFile(String),
}

/// What reading a scaling file's bytes yields: bytes that are not valid
/// UTF-8 are malformed; otherwise the decoded text, trimmed of surrounding
/// white space, must be a decimal frequency.
pub open spec fn spec_read_frequency(raw: Seq<u8>) -> Result<Frequency, Error> {
    if !vstd::utf8::valid_utf8(raw) {
        Err(Error::MalformedFrequency)
    } else {
        match spec_parse_u64(spec_trimmed(vstd::utf8::decode_utf8(raw))) {
            Ok(f) => Ok(f),
            Err(_) => Err(Error::InvalidFrequency),
        }
    }
}

/// Relies on str::from_utf8: it succeeds exactly when the bytes are valid
/// UTF-8, and the returned text views those very bytes.
#[verifier::external_body]
fn bytes_to_str<'a>(v: &'a [u8]) -> (r: Option<&'a str>)
    ensures
        match r {
            Some(s) => s.spec_bytes() == v@,
            None => !vstd::utf8::valid_utf8(v@),
        },
{
    std::str::from_utf8(v).ok()
}

/// Reads a frequency from the raw bytes of a scaling file.
pub fn parse_frequency(raw: &Vec<u8>) -> (r: Result<Frequency, Error>)
    ensures
        r == spec_read_frequency(raw@),
{
    let s = match bytes_to_str(raw.as_slice()) {
        Some(s) => s,
        None => {
            return Err(Error::MalformedFrequency);
        },
    };
    proof {
        vstd::utf8::encode_utf8_valid_utf8(s@);
        vstd::utf8::encode_utf8_decode_utf8(s@);
        assert(vstd::utf8::decode_utf8(raw@) == s@);
    }
    let trimmed = trim(s);
    match parse_u64(trimmed) {
        Ok(f) => Ok(f),
        Err(_) => Err(Error::InvalidFrequency),
    }
}

/// Joins a directory and a file name; the file must have been observed to
/// exist, else the error names the missing path.
pub fn path_buf_file(root: &String, file: &str, file_exists: bool) -> (r: Result<String, Error>)
    ensures
        ({
            let joined = root@ + "/"@ + file@;
            if file_exists {
                r matches Ok(p) && p@ == joined
            } else {
                r matches Err(e) && e matches Error::MissingScalingFile(p) && p@ == joined
            }
        }),
{
    let mut p = root.clone();
    p.append("/");
    p.append(file);
    if file_exists {
        Ok(p)
    } else {
        Err(Error::MissingScalingFile(p))
    }
}

/// What the binary observed about one entry of the processor directory.
#[derive(Debug)]
pub struct CpuCandidate {
    /// The entry's path.
    pub path: String,
    /// Whether the entry is a directory.
    pub is_dir: bool,
    /// Whether it holds a frequency-scaling subdirectory.
    pub has_cpufreq_dir: bool,
    /// Whether the current/maximum/minimum scaling files exist in there.
    pub has_current: bool,
    pub has_max: bool,
    pub has_min: bool,
}

/// A processor entry is kept when it is a directory with a frequency-scaling
/// subdirectory.
pub open spec fn spec_keeps(c: CpuCandidate) -> bool {
    c.is_dir && c.has_cpufreq_dir
}

/// The kept entries, in order.
pub open spec fn spec_kept(s: Seq<CpuCandidate>) -> Seq<CpuCandidate>
    decreases s.len(),
{
    if s.len() == 0 {
        Seq::empty()
    } else if spec_keeps(s.last()) {
        spec_kept(s.drop_last()).push(s.last())
    } else {
        spec_kept(s.drop_last())
    }
}

/// The frequency-scaling subdirectory of a kept entry.
pub open spec fn spec_cpufreq_root(c: CpuCandidate) -> Seq<char> {
    c.path@ + "/"@ + "cpufreq"@
}

/// Whether all three scaling files were observed.
pub open spec fn spec_complete(c: CpuCandidate) -> bool {
    c.has_current && c.has_max && c.has_min
}

/// The path of the first scaling file found missing: the current file is
/// probed first, then the maximum, then the minimum.
pub open spec fn spec_first_missing_path(c: CpuCandidate) -> Seq<char> {
    if !c.has_current {
        spec_cpufreq_root(c) + "/"@ + "scaling_cur_freq"@
    } else if !c.has_max {
        spec_cpufreq_root(c) + "/"@ + "scaling_max_freq"@
    } else {
        spec_cpufreq_root(c) + "/"@ + "scaling_min_freq"@
    }
}

/// Whether an error names the first scaling file missing from an entry.
pub open spec fn spec_missing_error_for(e: Error, c: CpuCandidate) -> bool {
    e matches Error::MissingScalingFile(p) && p@ == spec_first_missing_path(c)
}

/// One processor's three scaling file paths.
#[derive(Debug, PartialEq, Eq)]
pub struct CPU {
    current: String,
    max: String,
    min: String,
}

/// Whether a processor record carries the paths a kept entry leads to.
pub open spec fn spec_cpu_for(cpu: &CPU, c: CpuCandidate) -> bool {
    cpu.spec_current() == spec_cpufreq_root(c) + "/"@ + "scaling_cur_freq"@ && cpu.spec_max()
        == spec_cpufreq_root(c) + "/"@ + "scaling_max_freq"@ && cpu.spec_min() == spec_cpufreq_root(
        c,
    ) + "/"@ + "scaling_min_freq"@
}

impl CPU {
    /// The path of the current-frequency scaling file.
    pub closed spec fn spec_current(&self) -> Seq<char> {
        self.current@
    }

    /// The path of the maximum-frequency scaling file.
    pub closed spec fn spec_max(&self) -> Seq<char> {
        self.max@
    }

    /// The path of the minimum-frequency scaling file.
    pub closed spec fn spec_min(&self) -> Seq<char> {
        self.min@
    }

    /// The records for every kept entry, in order; the first missing scaling
    /// file among them decides the error.
    pub fn discover(entries: &Vec<CpuCandidate>) -> (r: Result<Vec<CPU>, Error>)
        ensures
            ({
                let kept = spec_kept(entries@);
                match r {
                    Ok(cpus) => cpus@.len() == kept.len() && (forall|i: int|
                        0 <= i < kept.len() ==> spec_complete(#[trigger] kept[i]) && spec_cpu_for(
                            &cpus@[i],
                            kept[i],
                        )),
                    Err(e) => exists|j: int|
                        0 <= j < kept.len() && !spec_complete(#[trigger] kept[j])
                            && spec_missing_error_for(e, kept[j]) && (forall|m: int|
                            0 <= m < j ==> spec_complete(#[trigger] kept[m])),
                }
            }),
    {
        let mut cpus: Vec<CPU> = Vec::new();
        let mut i: usize = 0;
        while i < entries.len()
            invariant
                i <= entries.len(),
                ({
                    let kept = spec_kept(entries@.subrange(0, i as int));
                    cpus@.len() == kept.len() && (forall|m: int|
                        0 <= m < kept.len() ==> spec_complete(#[trigger] kept[m]) && spec_cpu_for(
                            &cpus@[m],
                            kept[m],
                        ))
                }),
            decreases entries.len() - i,
        {
            let ghost pre = spec_kept(entries@.subrange(0, i as int));
            proof {
                let a = entries@.subrange(0, i as int);
                let b = entries@.subrange(0, i + 1 as int);
                assert(b.drop_last() =~= a);
                assert(b.last() == entries@[i as int]);
            }
            let entry = &entries[i];
            if entry.is_dir && entry.has_cpufreq_dir {
                match Self::new(entry) {
                    Ok(cpu) => {
                        cpus.push(cpu);
                        proof {
                            let post = spec_kept(entries@.subrange(0, i + 1 as int));
                            assert(post =~= pre.push(entries@[i as int]));
                        }
                    },
                    Err(e) => {
                        proof {
                            let post = spec_kept(entries@.subrange(0, i + 1 as int));
                            assert(post =~= pre.push(entries@[i as int]));
                            lemma_kept_extends(entries@, i + 1);
                            let kept = spec_kept(entries@);
                            let j = pre.len() as int;
                            assert(kept[j] == post[j]);
                            assert(post[j] == entries@[i as int]);
                            assert forall|m: int| 0 <= m < j implies spec_complete(
                                #[trigger] kept[m],
                            ) by {
                                assert(kept[m] == post[m]);
                                assert(post[m] == pre[m]);
                            }
                        }
                        return Err(e);
                    },
                }
            }
            i = i + 1;
        }
        proof {
            assert(entries@.subrange(0, entries@.len() as int) =~= entries@);
        }
        Ok(cpus)
    }

    /// The record for one kept entry; the first missing scaling file decides
    /// the error.
    pub fn new(c: &CpuCandidate) -> (r: Result<CPU, Error>)
        ensures
            ({
                if spec_complete(*c) {
                    r matches Ok(cpu) && spec_cpu_for(&cpu, *c)
                } else {
                    r matches Err(e) && spec_missing_error_for(e, *c)
                }
            }),
    {
        let mut root = c.path.clone();
        root.append("/");
        root.append("cpufreq");
        let current = match path_buf_file(&root, "scaling_cur_freq", c.has_current) {
            Ok(p) => p,
            Err(e) => {
                return Err(e);
            },
        };
        let max = match path_buf_file(&root, "scaling_max_freq", c.has_max) {
            Ok(p) => p,
            Err(e) => {
                return Err(e);
            },
        };
        let min = match path_buf_file(&root, "scaling_min_freq", c.has_min) {
            Ok(p) => p,
            Err(e) => {
                return Err(e);
            },
        };
        Ok(CPU { current, max, min })
    }

    /// The path the binary must read the current frequency from.
    pub fn current_path(&self) -> (p: &String)
        ensures
            p@ == self.spec_current(),
    {
        &self.current
    }

    /// The path the binary must read the maximum frequency from.
    pub fn max_path(&self) -> (p: &String)
        ensures
            p@ == self.spec_max(),
    {
        &self.max
    }

    /// The path the binary must read the minimum frequency from.
    pub fn min_path(&self) -> (p: &String)
        ensures
            p@ == self.spec_min(),
    {
        &self.min
    }

    /// The current frequency, from the bytes of the current-frequency file.
    pub fn current_freq(&self, raw: &Vec<u8>) -> (r: Result<Frequency, Error>)
        ensures
            r == spec_read_frequency(raw@),
    {
        parse_frequency(raw)
    }

    /// The maximum frequency, from the bytes of the maximum-frequency file.
    pub fn max_freq(&self, raw: &Vec<u8>) -> (r: Result<Frequency, Error>)
        ensures
            r == spec_read_frequency(raw@),
    {
        parse_frequency(raw)
    }

    /// The minimum frequency, from the bytes of the minimum-frequency file.
    pub fn min_freq(&self, raw: &Vec<u8>) -> (r: Result<Frequency, Error>)
        ensures
            r == spec_read_frequency(raw@),
    {
        parse_frequency(raw)
    }
}

/// A frequency as humans read it: gigahertz to two decimals above a million
/// kilohertz, whole megahertz above a thousand, else kilohertz.  Fractions
/// round half away from zero.
pub open spec fn spec_frequency_display(f: int) -> Seq<char> {
    if f > 1000000 {
        let units = f / 10000 + (if f % 10000 >= 5000 {
            1int
        } else {
            0int
        });
        spec_decimal(units / 100) + seq!['.'] + seq![
            spec_digit((units / 10) % 10),
            spec_digit(units % 10),
        ] + " GHz"@
    } else if f > 1000 {
        let mhz = f / 1000 + (if f % 1000 >= 500 {
            1int
        } else {
            0int
        });
        spec_decimal(mhz) + " MHz"@
    } else {
        spec_decimal(f) + " kHz"@
    }
}

/// A frequency wrapped for display.
#[derive(Debug, Clone, Copy, PartialEq, Eq, Structural)]
pub struct FrequencyDisplay(pub Frequency);

impl FrequencyDisplay {
    /// Renders the frequency in the unit that fits it.
    pub fn to_string(&self) -> (s: String)
        ensures
            s@ == spec_frequency_display(self.0 as int),
    {
        proof {
            reveal_strlit(".");
            reveal_strlit(" GHz");
            reveal_strlit(" MHz");
            reveal_strlit(" kHz");
        }
        let f = self.0;
        if f > 1000000 {
            let round: u64 = if f % 10000 >= 5000 {
                1
            } else {
                0
            };
            let units = f / 10000 + round;
            let mut s = u64_to_string(units / 100);
            s.append(".");
            s.append(digit_str((units / 10) % 10));
            s.append(digit_str(units % 10));
            s.append(" GHz");
            proof {
                assert(s@ =~= spec_frequency_display(f as int));
            }
            s
        } else if f > 1000 {
            let round: u64 = if f % 1000 >= 500 {
                1
            } else {
                0
            };
            let mut s = u64_to_string(f / 1000 + round);
            s.append(" MHz");
            proof {
                assert(s@ =~= spec_frequency_display(f as int));
            }
            s
        } else {
            let mut s = u64_to_string(f);
            s.append(" kHz");
            proof {
                assert(s@ =~= spec_frequency_display(f as int));
            }
            s
        }
    }
}

/// The smallest frequency of a non-empty sequence.
pub open spec fn spec_min_freq(s: Seq<Frequency>) -> Frequency
    recommends
        s.len() >= 1,
    decreases s.len(),
{
    if s.len() <= 1 {
        s.first()
    } else {
        let m = spec_min_freq(s.drop_last());
        if s.last() < m {
            s.last()
        } else {
            m
        }
    }
}

/// The largest frequency of a non-empty sequence.
pub open spec fn spec_max_freq(s: Seq<Frequency>) -> Frequency
    recommends
        s.len() >= 1,
    decreases s.len(),
{
    if s.len() <= 1 {
        s.first()
    } else {
        let m = spec_max_freq(s.drop_last());
        if s.last() > m {
            s.last()
        } else {
            m
        }
    }
}

/// The largest of the collected maximum frequencies, if any were collected.
pub fn max_freq(freqs: &Vec<Frequency>) -> (r: Option<Frequency>)
    ensures
        freqs@.len() == 0 ==> r is None,
        freqs@.len() > 0 ==> r == Some(spec_max_freq(freqs@)),
{
    if freqs.len() == 0 {
        return None;
    }
    let mut best = freqs[0];
    let mut i: usize = 1;
    while i < freqs.len()
        invariant
            1 <= i <= freqs@.len(),
            best == spec_max_freq(freqs@.subrange(0, i as int)),
        decreases freqs@.len() - i,
    {
        proof {
            let pre = freqs@.subrange(0, i as int);
            let post = freqs@.subrange(0, i + 1 as int);
            assert(post.drop_last() =~= pre);
            assert(post.last() == freqs@[i as int]);
        }
        if freqs[i] > best {
            best = freqs[i];
        }
        i = i + 1;
    }
    proof {
        assert(freqs@.subrange(0, freqs@.len() as int) =~= freqs@);
    }
    Some(best)
}

/// The tooltip for a set of processors: how many there are and the range
/// their current frequencies span.
pub fn format_tooltip(freqs: &Vec<Frequency>) -> (s: String)
    requires
        freqs@.len() >= 1,
    ensures
        s@ == spec_decimal(freqs@.len() as int) + " core"@ + (if freqs@.len() == 1 {
            Seq::<char>::empty()
        } else {
            "s"@
        }) + "; ranging from "@ + spec_frequency_display(spec_min_freq(freqs@) as int) + " to "@
            + spec_frequency_display(spec_max_freq(freqs@) as int),
{
    proof {
        reveal_strlit(" core");
        reveal_strlit("s");
        reveal_strlit("; ranging from ");
        reveal_strlit(" to ");
    }
    let mut min = freqs[0];
    let mut i: usize = 1;
    while i < freqs.len()
        invariant
            1 <= i <= freqs@.len(),
            min == spec_min_freq(freqs@.subrange(0, i as int)),
        decreases freqs@.len() - i,
    {
        proof {
            let pre = freqs@.subrange(0, i as int);
            let post = freqs@.subrange(0, i + 1 as int);
            assert(post.drop_last() =~= pre);
            assert(post.last() == freqs@[i as int]);
        }
        if freqs[i] < min {
            min = freqs[i];
        }
        i = i + 1;
    }
    proof {
        assert(freqs@.subrange(0, freqs@.len() as int) =~= freqs@);
    }
    let max = match max_freq(freqs) {
        Some(m) => m,
        None => min,
    };
    let mut s = u64_to_string(freqs.len() as u64);
    s.append(" core");
    if freqs.len() != 1 {
        s.append("s");
    }
    s.append("; ranging from ");
    let min_text = FrequencyDisplay(min).to_string();
    s.append(min_text.as_str());
    s.append(" to ");
    let max_text = FrequencyDisplay(max).to_string();
    s.append(max_text.as_str());
    proof {
        assert(s@ =~= spec_decimal(freqs@.len() as int) + " core"@ + (if freqs@.len() == 1 {
            Seq::<char>::empty()
        } else {
            "s"@
        }) + "; ranging from "@ + spec_frequency_display(spec_min_freq(freqs@) as int) + " to "@
            + spec_frequency_display(spec_max_freq(freqs@) as int));
    }
    s
}

proof fn lemma_kept_extends(s: Seq<CpuCandidate>, i: int)
    requires
        0 <= i <= s.len(),
    ensures
        ({
            let pre = spec_kept(s.subrange(0, i));
            let kept = spec_kept(s);
            pre.len() <= kept.len() && (forall|m: int|
                0 <= m < pre.len() ==> #[trigger] kept[m] == pre[m])
        }),
    decreases s.len() - i,
{
    if i == s.len() {
        assert(s.subrange(0, i) =~= s);
    } else {
        lemma_kept_extends(s, i + 1);
        let a = s.subrange(0, i);
        let b = s.subrange(0, i + 1);
        assert(b.drop_last() =~= a);
        assert(b.last() == s[i]);
    }
}

} // verus!
