use vstd::prelude::*;
use crate::config::ScanConfig;
use crate::errors::Error;
use crate::patterns::pattern_matches;

verus! {

/// What kind of filesystem object a traversal entry is.
#[derive(Clone, Copy, Debug, PartialEq, Eq, Structural)]
pub enum FileKind {
    Regular,
    Directory,
    Symlink,
    Socket,
    Fifo,
    BlockDevice,
    CharDevice,
}

/// One filesystem entry as the directory walker sees it: its full path, its
/// base name, its type, and its size where the metadata could be read.
pub struct Entry {
    pub path: String,
    pub file_name: String,
    pub kind: FileKind,
    pub size: Option<u64>,
}

/// Whether a base name counts as hidden: it starts with a dot and is neither
/// the current nor the parent directory.
pub open spec fn is_hidden_name(s: Seq<char>) -> bool {
    s.len() >= 2 && s[0] == '.' && !(s.len() == 2 && s[1] == '.')
}

/// Whether `name` is a hidden base name (starts with `.`, but is not `.` or
/// `..` themselves).
pub fn is_hidden(name: &str) -> (r: bool)
    ensures
        r == is_hidden_name(name@),
{
    let n = name.unicode_len();
    if n < 2 {
        false
    } else if name.get_char(0) != '.' {
        false
    } else {
        !(n == 2 && name.get_char(1) == '.')
    }
}

/// The exclusion filter's decision on one entry, evaluated in order: the
/// hidden-name rule, then the exclude patterns against the full path, then
/// the size ceiling for regular files of readable size. Whatever no rule
/// rejects is scanned.
pub open spec fn should_scan(config: ScanConfig, e: Entry) -> bool {
    if config.skip_hidden && is_hidden_name(e.file_name@) {
        false
    } else if exists|i: int|
        0 <= i < config.excludes@.len() && pattern_matches(
            #[trigger] config.excludes@[i].spec_source(),
            e.path@,
        ) {
        false
    } else {
        match (config.skip_larger_than, e.kind, e.size) {
            (Some(limit), FileKind::Regular, Some(size)) => size <= limit.bytes,
            _ => true,
        }
    }
}

/// Whether `e` should be scanned, given the configured exclusion rules.
/// Directories pass this filter so that traversal can recurse into them;
/// they are kept from the scan queue by `should_be_skipped`.
pub fn matches(config: &ScanConfig, e: &Entry) -> (r: bool)
    ensures
        r == should_scan(*config, *e),
{
    if config.skip_hidden && is_hidden(e.file_name.as_str()) {
        return false;
    }
    let n = config.excludes.len();
    let mut i: usize = 0;
    while i < n
        invariant
            n == config.excludes@.len(),
            i <= n,
            forall|j: int|
                0 <= j < i ==> !pattern_matches(
                    #[trigger] config.excludes@[j].spec_source(),
                    e.path@,
                ),
        decreases n - i,
    {
        if config.excludes[i].matches(e.path.as_str()) {
            return false;
        }
        i += 1;
    }
    if let Some(limit) = &config.skip_larger_than {
        if let FileKind::Regular = e.kind {
            if let Some(size) = e.size {
                if size > limit.bytes {
                    return false;
                }
            }
        }
    }
    true
}

/// The text of the reason an entry type is kept off the scan queue.
pub open spec fn skip_reason_text(kind: FileKind) -> Seq<char> {
    match kind {
        FileKind::Regular => Seq::<char>::empty(),
        FileKind::Directory => "Traversing directory"@,
        FileKind::Symlink => "Skipping symlink"@,
        FileKind::Socket => "Skipping unix socket"@,
        FileKind::Fifo => "Skipping fifo"@,
        FileKind::BlockDevice => "Skipping block device"@,
        FileKind::CharDevice => "Skipping char device"@,
    }
}

/// Why `kind` is kept off the scan queue, or `None` for a regular file,
/// which is the only kind ever scanned. Directories are skipped here but
/// recursed into by the walker; every other kind is skipped outright.
pub fn should_be_skipped(kind: &FileKind) -> (r: Option<&'static str>)
    ensures
        (r is None) <==> *kind is Regular,
        r matches Some(reason) ==> reason@ == skip_reason_text(*kind),
{
    match kind {
        FileKind::Regular => None,
        FileKind::Directory => Some("Traversing directory"),
        FileKind::Symlink => Some("Skipping symlink"),
        FileKind::Socket => Some("Skipping unix socket"),
        FileKind::Fifo => Some("Skipping fifo"),
        FileKind::BlockDevice => Some("Skipping block device"),
        FileKind::CharDevice => Some("Skipping char device"),
    }
}

/// Whether the walker hands `e` to a scan worker: the entry must pass the
/// exclusion filter and be a regular file.
pub open spec fn submitted_to_worker(config: ScanConfig, e: Entry) -> bool {
    should_scan(config, e) && e.kind is Regular
}

/// Law: with the hidden rule switched on, an entry whose base name is hidden
/// is never scanned, whatever its type, its size, or the exclude patterns.
pub proof fn lemma_hidden_never_scanned(config: ScanConfig, e: Entry)
    requires
        config.skip_hidden,
        is_hidden_name(e.file_name@),
    ensures
        !should_scan(config, e),
{
}

/// Law: when neither the hidden rule nor an exclude pattern rejects a
/// regular file of readable size, a configured ceiling decides alone:
/// above it the file is skipped, at or below it (the boundary included)
/// it is scanned.
pub proof fn lemma_size_ceiling_decides(config: ScanConfig, e: Entry)
    requires
        !(config.skip_hidden && is_hidden_name(e.file_name@)),
        forall|i: int|
            0 <= i < config.excludes@.len() ==> !pattern_matches(
                #[trigger] config.excludes@[i].spec_source(),
                e.path@,
            ),
        config.skip_larger_than is Some,
        e.kind is Regular,
        e.size is Some,
    ensures
        should_scan(config, e) <==> e.size->0 <= config.skip_larger_than->0.bytes,
{
}

/// Law: directories, symlinks, sockets, fifos and device files are never
/// handed to a scan worker, whatever the filter settings say.
pub proof fn lemma_non_regular_never_submitted(config: ScanConfig, e: Entry)
    requires
        !(e.kind is Regular),
    ensures
        !submitted_to_worker(config, e),
{
}

/// The verdict the scan engine returns for one file.
pub enum ScanVerdict {
    Clean,
    Whitelisted,
    Infected(String),
}

/// Keeps what is worth reporting from one engine result. Only an infected
/// file yields something, namely the matching signature's name; clean and
/// whitelisted files yield nothing.
pub fn infected_name(verdict: ScanVerdict) -> (r: Option<String>)
    ensures
        match verdict {
            ScanVerdict::Infected(name) => r matches Some(m) && m@ == name@,
            _ => r is None,
        },
{
    match verdict {
        ScanVerdict::Infected(name) => Some(name),
        _ => None,
    }
}

/// Which roots a scan run walks: paths given on the command line win, then
/// the configured paths, then the home directory alone.
pub fn choose_scan_paths(arg_paths: Vec<String>, config_paths: Vec<String>, home: String) -> (r:
    Vec<String>)
    ensures
        arg_paths@.len() > 0 ==> r@ == arg_paths@,
        arg_paths@.len() == 0 && config_paths@.len() > 0 ==> r@ == config_paths@,
        arg_paths@.len() == 0 && config_paths@.len() == 0 ==> r@ == seq![home],
{
    if arg_paths.len() > 0 {
        arg_paths
    } else if config_paths.len() > 0 {
        config_paths
    } else {
        let mut roots: Vec<String> = Vec::new();
        roots.push(home);
        proof {
            assert(roots@ =~= seq![home]);
        }
        roots
    }
}

/// How many scan workers a run spawns: the configured override, else one per
/// available processing unit. There is always at least one worker, and never
/// more than the configuration allows.
pub fn worker_count(concurrency: Option<usize>, cpus: usize) -> (r: usize)
    requires
        cpus >= 1,
        concurrency matches Some(c) ==> c >= 1,
    ensures
        r == match concurrency {
            Some(c) => c,
            None => cpus,
        },
        r >= 1,
{
    match concurrency {
        Some(c) => c,
        None => cpus,
    }
}

/// The index of the first occurrence of `b` in `s`, if it occurs.
pub open spec fn first_index_of(s: Seq<u8>, b: u8) -> Option<int>
    decreases s.len(),
{
    if s.len() == 0 {
        None
    } else if s[0] == b {
        Some(0)
    } else {
        match first_index_of(s.subrange(1, s.len() as int), b) {
            Some(i) => Some(i + 1),
            None => None,
        }
    }
}

proof fn lemma_first_index_of_characterization(s: Seq<u8>, b: u8, r: Option<int>)
    requires
        match r {
            Some(i) => 0 <= i < s.len() && s[i] == b && forall|j: int| 0 <= j < i ==> s[j] != b,
            None => forall|j: int| 0 <= j < s.len() ==> s[j] != b,
        },
    ensures
        first_index_of(s, b) == r,
    decreases s.len(),
{
    if s.len() == 0 {
    } else if s[0] == b {
        match r {
            Some(i) => {
                if i != 0 {
                    assert(s[0] != b);
                }
            },
            None => {
                assert(s[0] != b);
            },
        }
    } else {
        let tail = s.subrange(1, s.len() as int);
        match r {
            Some(i) => {
                assert(i != 0);
                assert(tail[i - 1] == b);
                assert forall|j: int| 0 <= j < i - 1 implies tail[j] != b by {
                    assert(tail[j] == s[j + 1]);
                }
                lemma_first_index_of_characterization(tail, b, Some(i - 1));
            },
            None => {
                assert forall|j: int| 0 <= j < tail.len() implies tail[j] != b by {
                    assert(tail[j] == s[j + 1]);
                }
                lemma_first_index_of_characterization(tail, b, None);
            },
        }
    }
}

/// Relies on `memchr::memchr`: the index of the first occurrence of `needle`
/// in `haystack`, or `None` when it does not occur.
pub assume_specification [ memchr::memchr ](needle: u8, haystack: &[u8]) -> (r: Option<usize>)
    ensures
        match r {
            Some(i) => i < haystack@.len() && haystack@[i as int] == needle && forall|j: int|
                0 <= j < i ==> haystack@[j] != needle,
            None => forall|j: int| 0 <= j < haystack@.len() ==> haystack@[j] != needle,
        },
;

/// Whether `b` is an ASCII decimal digit.
pub open spec fn is_ascii_digit(b: u8) -> bool {
    48 <= b <= 57
}

/// The index just past the run of ASCII digits that starts at `i`.
pub open spec fn digit_run_end(s: Seq<u8>, i: int) -> int
    decreases s.len() - i,
{
    if 0 <= i < s.len() && is_ascii_digit(s[i]) {
        digit_run_end(s, i + 1)
    } else {
        i
    }
}

/// The numeric value of a run of ASCII digits.
pub open spec fn digits_value(s: Seq<u8>) -> int
    decreases s.len(),
{
    if s.len() == 0 {
        0
    } else {
        digits_value(s.drop_last()) * 10 + (s.last() - 48)
    }
}

/// What `atoi::atoi::<i64>` makes of `s`: an optional sign, then the leading
/// run of ASCII digits; whatever follows the run is ignored. `None` when the
/// text starts with neither a sign nor a digit, or when the value does not
/// fit an `i64`.
pub open spec fn parse_signed_decimal(s: Seq<u8>) -> Option<int> {
    let offset: int = if s.len() > 0 && (s[0] == 43 || s[0] == 45) {
        1
    } else {
        0
    };
    let end = digit_run_end(s, offset);
    if end == 0 {
        None
    } else {
        let magnitude = digits_value(s.subrange(offset, end));
        let value = if offset == 1 && s[0] == 45 {
            -magnitude
        } else {
            magnitude
        };
        if -0x8000_0000_0000_0000 <= value <= 0x7fff_ffff_ffff_ffff {
            Some(value)
        } else {
            None
        }
    }
}

/// Relies on `atoi::atoi::<i64>` (`FromRadix10SignedChecked`): parses an
/// optional sign and the leading digit run, ignores trailing bytes, and
/// reports overflow and digit-free text as `None`.
#[verifier::external_body]
fn parse_i64(text: &[u8]) -> (r: Option<i64>)
    ensures
        r matches Some(v) ==> parse_signed_decimal(text@) == Some(v as int),
        r is None ==> parse_signed_decimal(text@) is None,
{
    atoi::atoi::<i64>(text)
}

/// What is left of `s` after skipping `n` colon-terminated fields, or `None`
/// if fewer than `n` colons remain.
pub open spec fn skip_fields(s: Seq<u8>, n: nat) -> Option<Seq<u8>>
    decreases n,
{
    if n == 0 {
        Some(s)
    } else {
        match skip_fields(s, (n - 1) as nat) {
            None => None,
            Some(rest) => match first_index_of(rest, 58) {
                None => None,
                Some(i) => Some(rest.subrange(i + 1, rest.len() as int)),
            },
        }
    }
}

proof fn lemma_skip_fields_none(s: Seq<u8>, n: nat, m: nat)
    requires
        skip_fields(s, n) is None,
        n <= m,
    ensures
        skip_fields(s, m) is None,
    decreases m,
{
    if m > n {
        lemma_skip_fields_none(s, n, (m - 1) as nat);
    }
}

/// The timestamp a signature database header carries: eight colon-terminated
/// fields are skipped, and the ninth field, up to the first space, is a
/// decimal Unix timestamp.
pub open spec fn spec_parse_database_age(s: Seq<u8>) -> Result<int, Error> {
    match skip_fields(s, 8) {
        None => Err(Error::TruncatedHeader),
        Some(rest) => match first_index_of(rest, 32) {
            None => Err(Error::UnterminatedTimestamp),
            Some(i) => match parse_signed_decimal(rest.subrange(0, i)) {
                None => Err(Error::InvalidTimestamp),
                Some(v) => Ok(v),
            },
        },
    }
}

/// Parses the age of the signature database out of its header: the
/// space-terminated Unix timestamp in the ninth colon-delimited field.
pub fn parse_database_age(buf: &[u8]) -> (r: Result<i64, Error>)
    ensures
        r matches Ok(v) ==> spec_parse_database_age(buf@) == Ok::<int, Error>(v as int),
        r matches Err(e) ==> spec_parse_database_age(buf@) == Err::<int, Error>(e),
{
    let mut rest: &[u8] = buf;
    let mut k: usize = 0;
    while k < 8
        invariant
            k <= 8,
            skip_fields(buf@, k as nat) == Some(rest@),
        decreases 8 - k,
    {
        match memchr::memchr(58, rest) {
            None => {
                proof {
                    lemma_first_index_of_characterization(rest@, 58, None);
                    lemma_skip_fields_none(buf@, (k + 1) as nat, 8);
                }
                return Err(Error::TruncatedHeader);
            },
            Some(i) => {
                proof {
                    lemma_first_index_of_characterization(rest@, 58, Some(i as int));
                }
                let len = rest.len();
                rest = &rest[i + 1..len];
            },
        }
        k += 1;
    }
    match memchr::memchr(32, rest) {
        None => {
            proof {
                lemma_first_index_of_characterization(rest@, 32, None);
            }
            Err(Error::UnterminatedTimestamp)
        },
        Some(i) => {
            proof {
                lemma_first_index_of_characterization(rest@, 32, Some(i as int));
            }
            let field = &rest[0..i];
            match parse_i64(field) {
                None => Err(Error::InvalidTimestamp),
                Some(v) => Ok(v),
            }
        },
    }
}

} // verus!
