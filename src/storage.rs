use vstd::prelude::*;

use crate::text::owned;

verus! {

/// `s` without its leading dots.
pub open spec fn trim_leading_dots(s: Seq<char>) -> Seq<char>
    decreases s.len(),
{
    if s.len() > 0 && s[0] == '.' {
        trim_leading_dots(s.drop_first())
    } else {
        s
    }
}

/// The name under which the storage keeps a file: its id, a dot, and the extension
/// without leading dots.
pub open spec fn file_name(file_id: Seq<char>, extension: Seq<char>) -> Seq<char> {
    file_id + "."@ + trim_leading_dots(extension)
}

/// `name` inside the directory `dir`.
pub open spec fn in_dir(dir: Seq<char>, name: Seq<char>) -> Seq<char> {
    if dir.len() == 0 || dir.last() == '/' {
        dir + name
    } else {
        dir + "/"@ + name
    }
}

/// Where the storage keeps temporary artifacts and for how long.
#[derive(Debug, Clone)]
pub struct FileStorageService {
    temp_dir: String,
    /// In milliseconds.
    max_file_age: u64,
}

/// How long a temporary file is kept by default: one hour, in milliseconds.
pub const DEFAULT_MAX_FILE_AGE_MS: u64 = 3_600_000;

impl FileStorageService {
    pub closed spec fn dir(&self) -> Seq<char> {
        self.temp_dir@
    }

    pub closed spec fn max_age(&self) -> u64 {
        self.max_file_age
    }

    /// A storage rooted at `temp_dir`; the caller creates the directory.
    pub fn new(temp_dir: &str) -> (r: FileStorageService)
        ensures
            r.dir() == temp_dir@,
            r.max_age() == DEFAULT_MAX_FILE_AGE_MS,
    {
        FileStorageService { temp_dir: owned(temp_dir), max_file_age: DEFAULT_MAX_FILE_AGE_MS }
    }

    /// The path of the file kept under `file_id` with `extension`.
    pub fn get_temp_file_path(&self, file_id: &str, extension: &str) -> (r: String)
        ensures
            r@ == in_dir(self.dir(), file_name(file_id@, extension@)),
    {
        let n = extension.unicode_len();
        let mut start: usize = 0;
        proof {
            assert(extension@.subrange(0, n as int) =~= extension@);
        }
        while start < n && extension.get_char(start) == '.'
            invariant
                n == extension@.len(),
                start <= n,
                trim_leading_dots(extension@) == trim_leading_dots(extension@.subrange(start as int, n as int)),
            decreases n - start,
        {
            proof {
                let rest = extension@.subrange(start as int, n as int);
                assert(rest.drop_first() =~= extension@.subrange(start + 1, n as int));
            }
            start = start + 1;
        }
        proof {
            let rest = extension@.subrange(start as int, n as int);
            if start < n {
                assert(rest[0] == extension@[start as int]);
            }
        }
        let trimmed = extension.substring_char(start, n);
        let mut path = self.temp_dir.clone();
        let dl = self.temp_dir.as_str().unicode_len();
        if dl > 0 && self.temp_dir.as_str().get_char(dl - 1) != '/' {
            path.append("/");
        }
        path.append(file_id);
        path.append(".");
        path.append(trimmed);
        proof {
            assert(extension@.subrange(0, n as int) =~= extension@);
            assert(path@ =~= in_dir(self.dir(), file_name(file_id@, extension@)));
        }
        path
    }

    /// Sets how long temporary files are kept, in milliseconds.
    pub fn set_max_file_age(&mut self, max_age_ms: u64)
        ensures
            final(self).max_age() == max_age_ms,
            final(self).dir() == old(self).dir(),
    {
        self.max_file_age = max_age_ms;
    }

    pub fn max_file_age(&self) -> (r: u64)
        ensures
            r == self.max_age(),
    {
        self.max_file_age
    }

    pub fn temp_dir(&self) -> (r: &str)
        ensures
            r@ == self.dir(),
    {
        self.temp_dir.as_str()
    }
}

} // verus!
