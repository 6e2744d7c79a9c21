//! Splitting a dataset into shards of about `bytes_per_shard` bytes each.
//!
//! The splitter decides, line by line, when a new shard file begins and what
//! each line writes; opening, writing and flushing the files is up to the
//! caller.
use vstd::prelude::*;
use vstd::utf8::encode_utf8;
use crate::text::{chars_of, decimal, push_char, push_decimal, push_str, string_from_chars};

verus! {

/// `Path::file_name` read as a string: the final component of a path, if it
/// has one.
pub uninterp spec fn path_file_name(path: Seq<char>) -> Option<Seq<char>>;

/// `Path::new(path).file_name()`, as a `String`: Rust's documentation says
/// it is the final component of the path, and `None` when the path ends in
/// `..`. The result depends on the path alone; what it is for a given path is
/// not stated here, only named.
#[verifier::external_body]
fn file_name_of(path: &str) -> (r: Option<String>)
    ensures
        match r {
            Some(n) => path_file_name(path@) == Some(n@),
            None => path_file_name(path@) is None,
        },
{
    std::path::Path::new(path).file_name().map(|n| n.to_string_lossy().into_owned())
}

/// The name that a dataset's shards start with: the file name of its path,
/// `None` when the path has none.
pub fn base_name(dataset_path: &str) -> (r: Option<String>)
    ensures
        match r {
            Some(n) => path_file_name(dataset_path@) == Some(n@),
            None => path_file_name(dataset_path@) is None,
        },
{
    file_name_of(dataset_path)
}

/// The path of shard number `index`: `{dir}{base}-{index}.csv`.
pub open spec fn shard_path_of(dir: Seq<char>, base: Seq<char>, index: nat) -> Seq<char> {
    dir + base + "-"@ + decimal(index) + ".csv"@
}

/// Builds the path of shard number `index`.
pub fn shard_path(dir: &str, base: &str, index: u64) -> (r: String)
    ensures
        r@ == shard_path_of(dir@, base@, index as nat),
{
    let mut s = String::new();
    push_str(&mut s, dir);
    push_str(&mut s, base);
    push_str(&mut s, "-");
    push_decimal(&mut s, index);
    push_str(&mut s, ".csv");
    s
}

/// A directory path that ends with `'/'`: the path itself when it does, else
/// the path with one added.
pub open spec fn with_trailing_slash(dir: Seq<char>) -> Seq<char> {
    if dir.len() > 0 && dir.last() == '/' {
        dir
    } else {
        dir.push('/')
    }
}

/// A line without the `'\r'` and `'\n'` characters at its end.
pub open spec fn trim_line_end(line: Seq<char>) -> Seq<char>
    decreases line.len(),
{
    if line.len() > 0 && (line.last() == '\r' || line.last() == '\n') {
        trim_line_end(line.drop_last())
    } else {
        line
    }
}

/// The bytes that a line takes in a shard: its UTF-8 length once trimmed,
/// and one for the line feed.
pub open spec fn line_size(line: Seq<char>) -> nat {
    encode_utf8(trim_line_end(line)).len() + 1
}

/// What the splitter knows.
pub struct SplitterView {
    pub bytes_per_shard: nat,
    pub count_of_bytes: nat,
    pub count_of_shards: nat,
    pub output: Seq<char>,
    pub base: Seq<char>,
    pub writer_open: bool,
}

/// Cuts a dataset into shards: a new shard begins at a line once the current
/// one holds `bytes_per_shard` bytes or more.
pub struct DatasetSplitter {
    bytes_per_shard: usize,
    count_of_bytes: usize,
    count_of_shards: usize,
    input: String,
    output: String,
    base: String,
    writer_open: bool,
}

/// What to do with one line of the dataset.
#[derive(Debug, Clone)]
pub struct LineStep {
    /// The path of the shard to begin before the line, if one begins.
    pub new_shard: Option<String>,
    /// The line as it is written, without its line feed.
    pub content: String,
}

impl View for DatasetSplitter {
    type V = SplitterView;

    closed spec fn view(&self) -> SplitterView {
        SplitterView {
            bytes_per_shard: self.bytes_per_shard as nat,
            count_of_bytes: self.count_of_bytes as nat,
            count_of_shards: self.count_of_shards as nat,
            output: self.output@,
            base: self.base@,
            writer_open: self.writer_open,
        }
    }
}

/// The splitter after a new shard begins: nothing written to it yet.
pub open spec fn opened(v: SplitterView) -> SplitterView {
    SplitterView { count_of_bytes: 0, count_of_shards: v.count_of_shards + 1, writer_open: true, ..v }
}

/// Whether the next write needs a new shard: there is none yet, or the
/// current one is full.
pub open spec fn needs_shard(v: SplitterView) -> bool {
    !v.writer_open || v.count_of_bytes >= v.bytes_per_shard
}

impl DatasetSplitter {
    /// A splitter that writes the shards of the dataset at `input` into the
    /// directory `output`; the shards take the file name of `input`, or
    /// `"shard"` when it has none.
    pub fn new(bytes_per_shard: usize, input: String, output: String) -> (r: Self)
        ensures
            r@.bytes_per_shard == bytes_per_shard,
            r@.count_of_bytes == 0,
            r@.count_of_shards == 0,
            !r@.writer_open,
            r@.output == with_trailing_slash(output@),
            r@.base == match path_file_name(input@) {
                Some(n) => n,
                None => "shard"@,
            },
            r.input_path() == input@,
    {
        let file_name = file_name_of(input.as_str());
        Self::with_file_name(bytes_per_shard, input, output, file_name)
    }

    /// A splitter for the dataset at `input` whose file name is `file_name`:
    /// the shards take that name, or `"shard"` when there is none.
    pub fn with_file_name(bytes_per_shard: usize, input: String, output: String, file_name: Option<String>) -> (r: Self)
        ensures
            r@.bytes_per_shard == bytes_per_shard,
            r@.count_of_bytes == 0,
            r@.count_of_shards == 0,
            !r@.writer_open,
            r@.output == with_trailing_slash(output@),
            r@.base == match file_name {
                Some(n) => n@,
                None => "shard"@,
            },
            r.input_path() == input@,
    {
        let v = chars_of(output.as_str());
        let normalized = if v.len() > 0 && v[v.len() - 1] == '/' {
            output
        } else {
            let mut o = output;
            push_char(&mut o, '/');
            o
        };
        let base = match file_name {
            Some(n) => n,
            None => {
                let mut s = String::new();
                push_str(&mut s, "shard");
                s
            },
        };
        DatasetSplitter {
            bytes_per_shard,
            count_of_bytes: 0,
            count_of_shards: 0,
            input,
            output: normalized,
            base,
            writer_open: false,
        }
    }

    /// The path of the dataset.
    pub closed spec fn input_path(&self) -> Seq<char> {
        self.input@
    }

    /// The path of the dataset.
    pub fn input(&self) -> (r: &String)
        ensures
            r@ == self.input_path(),
    {
        &self.input
    }

    /// The directory of the shards, ending with `'/'`.
    pub fn output(&self) -> (r: &String)
        ensures
            r@ == self@.output,
    {
        &self.output
    }

    /// How many shards have begun.
    pub fn count_of_shards(&self) -> (r: usize)
        ensures
            r == self@.count_of_shards,
    {
        self.count_of_shards
    }

    /// How many bytes the current shard holds.
    pub fn count_of_bytes(&self) -> (r: usize)
        ensures
            r == self@.count_of_bytes,
    {
        self.count_of_bytes
    }

    /// Begins a new shard when there is none yet or the current one is full,
    /// and gives its path.
    fn update_writer(&mut self) -> (r: Option<String>)
        requires
            old(self)@.count_of_shards < usize::MAX,
        ensures
            needs_shard(old(self)@) ==> (r matches Some(p) && p@ == shard_path_of(
                old(self)@.output,
                old(self)@.base,
                old(self)@.count_of_shards,
            ) && final(self)@ == opened(old(self)@)),
            !needs_shard(old(self)@) ==> final(self)@ == old(self)@ && r is None,
    {
        if !self.writer_open || self.count_of_bytes >= self.bytes_per_shard {
            let index = self.count_of_shards;
            let path = shard_path(self.output.as_str(), self.base.as_str(), index as u64);
            self.writer_open = true;
            self.count_of_bytes = 0;
            self.count_of_shards = self.count_of_shards + 1;
            Some(path)
        } else {
            None
        }
    }

    /// Begins the first shard; `None` when one has begun already and is not
    /// full.
    pub fn start(&mut self) -> (r: Option<String>)
        requires
            old(self)@.count_of_shards < usize::MAX,
        ensures
            needs_shard(old(self)@) ==> (r matches Some(p) && p@ == shard_path_of(
                old(self)@.output,
                old(self)@.base,
                old(self)@.count_of_shards,
            ) && final(self)@ == opened(old(self)@)),
            !needs_shard(old(self)@) ==> final(self)@ == old(self)@ && r is None,
    {
        self.update_writer()
    }

    /// Takes one line of the dataset, as read with its line end: gives the
    /// line to write and, when the current shard is full, the shard to
    /// begin first; the line then counts toward that shard.
    pub fn on_line(&mut self, raw_line: &str) -> (r: LineStep)
        requires
            old(self)@.writer_open,
            old(self)@.count_of_shards < usize::MAX,
            old(self)@.count_of_bytes + line_size(raw_line@) <= usize::MAX,
        ensures
            r.content@ == trim_line_end(raw_line@),
            old(self)@.count_of_bytes >= old(self)@.bytes_per_shard ==> (r.new_shard matches Some(p) && p@
                == shard_path_of(old(self)@.output, old(self)@.base, old(self)@.count_of_shards) && final(self)@
                == (SplitterView { count_of_bytes: line_size(raw_line@), ..opened(old(self)@) })),
            old(self)@.count_of_bytes < old(self)@.bytes_per_shard ==> r.new_shard is None && final(self)@
                == (SplitterView { count_of_bytes: old(self)@.count_of_bytes + line_size(raw_line@), ..old(self)@ }),
    {
        let v = chars_of(raw_line);
        let mut end = v.len();
        assert(v@.take(end as int) =~= v@);
        while end > 0 && (v[end - 1] == '\r' || v[end - 1] == '\n')
            invariant
                end <= v.len(),
                v@ == raw_line@,
                trim_line_end(v@.take(end as int)) == trim_line_end(raw_line@),
            decreases end,
        {
            assert(v@.take(end as int).drop_last() =~= v@.take(end - 1));
            end = end - 1;
        }
        assert(trim_line_end(v@.take(end as int)) == v@.take(end as int));
        let content = string_from_chars(&v, 0, end);
        assert(v@.subrange(0, end as int) =~= v@.take(end as int));
        let size = content.as_str().as_bytes_vec().len() + 1;
        let new_shard = if self.count_of_bytes == 0 && size >= self.bytes_per_shard {
            self.update_writer()
        } else if self.count_of_bytes + size > self.bytes_per_shard {
            self.update_writer()
        } else {
            None
        };
        self.count_of_bytes = self.count_of_bytes + size;
        LineStep { new_shard, content }
    }

    /// Ends the split: the last shard is closed. `Err` when no shard began.
    pub fn finish(&mut self) -> (r: Result<(), String>)
        ensures
            final(self)@ == (SplitterView { writer_open: false, ..old(self)@ }),
            r is Ok <==> old(self)@.count_of_shards > 0,
            r matches Err(e) ==> e@ == "No se generaron shards"@,
    {
        self.writer_open = false;
        if self.count_of_shards == 0 {
            let mut e = String::new();
            push_str(&mut e, "No se generaron shards");
            Err(e)
        } else {
            Ok(())
        }
    }
}

} // verus!
