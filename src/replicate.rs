use vstd::prelude::*;

use crate::calendar::{
    date_or_default, date_or_epoch, date_time_text, decimal, month_name_of, signed_decimal,
    signed_decimal_text, LocalDateTime, Month,
};
use crate::text::{chars_of, push_char};

verus! {

/// One file found by a scan.
pub struct FileInfo {
    pub path: String,
    /// When the file was last modified, if its metadata could be read.
    pub creation_date: Option<LocalDateTime>,
}

/// Where one file of a copy goes.
pub struct CopyJob {
    /// The file to copy.
    pub source: String,
    /// The directory that receives it, made first if missing.
    pub target_dir: String,
    /// The file it is copied to.
    pub target: String,
}

/// The characters after the last `/` of a path.
pub open spec fn base_name(p: Seq<char>) -> Seq<char>
    decreases p.len(),
{
    if p.len() == 0 || p.last() == '/' {
        Seq::empty()
    } else {
        base_name(p.drop_last()).push(p.last())
    }
}

/// The path `b` inside the directory `a`, with one `/` between them.
pub open spec fn join_path(a: Seq<char>, b: Seq<char>) -> Seq<char> {
    if a.len() == 0 {
        b
    } else if a.last() == '/' {
        a + b
    } else {
        a.push('/') + b
    }
}

/// The directory `<dest>/<year>/<month name>` for a date, the Unix epoch standing in for an
/// unknown one.
pub open spec fn bucket_dir(dest: Seq<char>, date: Option<LocalDateTime>) -> Seq<char> {
    join_path(
        join_path(dest, signed_decimal(date_or_epoch(date).year as int)),
        month_name_of(date_or_epoch(date).month),
    )
}

/// The path `<dest>/<year>/<month name>/<base name of source>`.
pub open spec fn destination_of(dest: Seq<char>, source: Seq<char>, date: Option<LocalDateTime>) -> Seq<char> {
    join_path(bucket_dir(dest, date), base_name(source))
}

/// The text that describes a found file.
pub open spec fn description_of(path: Seq<char>, date: Option<LocalDateTime>) -> Seq<char> {
    match date {
        Some(d) => path + " (created on "@ + date_time_text(d) + ")"@,
        None => path + " (creation date not available)"@,
    }
}

/// `jobs` copies `files` into `dest`: one job per file, in the same order, each taking the file
/// to its destination.
pub open spec fn plans(jobs: Seq<CopyJob>, files: Seq<FileInfo>, dest: Seq<char>) -> bool {
    &&& jobs.len() == files.len()
    &&& forall|i: int|
        0 <= i < jobs.len() ==> {
            &&& (#[trigger] jobs[i]).source@ == files[i].path@
            &&& jobs[i].target_dir@ == bucket_dir(dest, files[i].creation_date)
            &&& jobs[i].target@ == destination_of(dest, files[i].path@, files[i].creation_date)
        }
}

/// The part of a path after its last `/`.
pub fn base_name_of(path: &str) -> (r: String)
    ensures
        r@ == base_name(path@),
{
    let cs = chars_of(path);
    let n: usize = cs.len();
    let mut i: usize = n;
    assert(cs@.take(n as int) =~= cs@);
    assert(cs@.subrange(n as int, n as int) =~= Seq::<char>::empty());
    assert(base_name(cs@) =~= base_name(cs@.take(n as int)) + cs@.subrange(n as int, n as int));
    while i > 0 && cs[i - 1] != '/'
        invariant
            n == cs@.len(),
            cs@ == path@,
            i <= n,
            base_name(cs@) == base_name(cs@.take(i as int)) + cs@.subrange(i as int, n as int),
        decreases i,
    {
        proof {
            let t = cs@.take(i as int);
            assert(t.drop_last() =~= cs@.take(i - 1));
            assert(base_name(t) == base_name(cs@.take(i - 1)).push(cs@[i - 1]));
            assert(base_name(t) + cs@.subrange(i as int, n as int) =~= base_name(cs@.take(i - 1))
                + cs@.subrange(i - 1, n as int));
        }
        i = i - 1;
    }
    assert(base_name(cs@.take(i as int)) =~= Seq::<char>::empty());
    let mut out = String::new();
    let mut k: usize = i;
    while k < n
        invariant
            n == cs@.len(),
            i <= k <= n,
            out@ == cs@.subrange(i as int, k as int),
        decreases n - k,
    {
        push_char(&mut out, cs[k]);
        k = k + 1;
        assert(out@ =~= cs@.subrange(i as int, k as int));
    }
    assert(base_name(cs@) =~= cs@.subrange(i as int, n as int));
    out
}

/// The path `b` inside the directory `a`.
pub fn join(a: &str, b: &str) -> (r: String)
    ensures
        r@ == join_path(a@, b@),
{
    let cs = chars_of(a);
    let mut out = String::new();
    out.append(a);
    if cs.len() > 0 && cs[cs.len() - 1] != '/' {
        push_char(&mut out, '/');
    }
    out.append(b);
    out
}

/// The directory `<dest>/<year>/<month name>` that a file with this date goes to; an unknown
/// date counts as the Unix epoch, January 1970.
pub fn bucket_dir_for(dest: &str, date: Option<LocalDateTime>) -> (r: String)
    ensures
        r@ == bucket_dir(dest@, date),
{
    let d = date_or_default(date);
    let year = signed_decimal_text(d.year);
    let year_dir = join(dest, year.as_str());
    join(year_dir.as_str(), d.month.name())
}

/// Where a copy puts a file: `<dest>/<year>/<month name>/<its base name>`.
pub fn destination_for(dest: &str, file: &FileInfo) -> (r: String)
    ensures
        r@ == destination_of(dest@, file.path@, file.creation_date),
{
    let dir = bucket_dir_for(dest, file.creation_date);
    let name = base_name_of(file.path.as_str());
    join(dir.as_str(), name.as_str())
}

/// What a copy of `files` into `dest` does, one job per file and in the same order.
pub fn plan_copies(files: &Vec<FileInfo>, dest: &str) -> (r: Vec<CopyJob>)
    ensures
        plans(r@, files@, dest@),
{
    let mut jobs: Vec<CopyJob> = Vec::new();
    let mut i: usize = 0;
    while i < files.len()
        invariant
            i <= files@.len(),
            jobs@.len() == i,
            forall|k: int|
                0 <= k < i ==> {
                    &&& (#[trigger] jobs@[k]).source@ == files@[k].path@
                    &&& jobs@[k].target_dir@ == bucket_dir(dest@, files@[k].creation_date)
                    &&& jobs@[k].target@ == destination_of(
                        dest@,
                        files@[k].path@,
                        files@[k].creation_date,
                    )
                },
        decreases files@.len() - i,
    {
        let f = &files[i];
        let target_dir = bucket_dir_for(dest, f.creation_date);
        let name = base_name_of(f.path.as_str());
        let target = join(target_dir.as_str(), name.as_str());
        let source = f.path.clone();
        jobs.push(CopyJob { source, target_dir, target });
        i = i + 1;
    }
    jobs
}

impl FileInfo {
    /// The path followed by when the file was created, or by a note that this is unknown.
    pub fn describe(&self) -> (r: String)
        ensures
            r@ == description_of(self.path@, self.creation_date),
    {
        let mut out = self.path.clone();
        match self.creation_date {
            Some(d) => {
                proof {
                    reveal_strlit(" (created on ");
                    reveal_strlit(")");
                }
                out.append(" (created on ");
                let t = d.to_text();
                out.append(t.as_str());
                out.append(")");
            },
            None => {
                proof {
                    reveal_strlit(" (creation date not available)");
                }
                out.append(" (creation date not available)");
            },
        }
        out
    }
}

/// A file whose date is unknown goes to `<dest>/1970/January`, the month of the Unix epoch.
pub proof fn unknown_date_goes_to_epoch_month(dest: Seq<char>, source: Seq<char>)
    ensures
        destination_of(dest, source, None) == join_path(
            join_path(join_path(dest, "1970"@), "January"@),
            base_name(source),
        ),
{
    reveal_strlit("1970");
    reveal_strlit("January");
    assert(decimal(1) =~= seq!['1']);
    assert(decimal(19) =~= seq!['1', '9']);
    assert(decimal(197) =~= seq!['1', '9', '7']);
    assert(decimal(1970) =~= seq!['1', '9', '7', '0']);
    assert(signed_decimal(1970) =~= "1970"@);
    assert(month_name_of(Month::January) =~= "January"@);
}

/// A file with a known date goes to `<dest>/<its year>/<its month's name>/<its base name>`.
pub proof fn known_date_goes_to_its_month(dest: Seq<char>, source: Seq<char>, date: LocalDateTime)
    ensures
        destination_of(dest, source, Some(date)) == join_path(
            join_path(join_path(dest, signed_decimal(date.year as int)), month_name_of(date.month)),
            base_name(source),
        ),
{
}

/// Copying the same files into the same directory twice writes the same targets from the same
/// sources in the same order, so the second copy overwrites each file with the same bytes.
pub proof fn same_inputs_same_plan(
    first: Seq<CopyJob>,
    second: Seq<CopyJob>,
    files: Seq<FileInfo>,
    dest: Seq<char>,
)
    requires
        plans(first, files, dest),
        plans(second, files, dest),
    ensures
        first.len() == second.len(),
        forall|i: int|
            0 <= i < first.len() ==> {
                &&& (#[trigger] first[i]).source@ == second[i].source@
                &&& first[i].target_dir@ == second[i].target_dir@
                &&& first[i].target@ == second[i].target@
            },
{
    assert forall|i: int| 0 <= i < first.len() implies {
        &&& (#[trigger] first[i]).source@ == second[i].source@
        &&& first[i].target_dir@ == second[i].target_dir@
        &&& first[i].target@ == second[i].target@
    } by {
        assert(second[i].source@ == files[i].path@);
    }
}

/// When no two files share a destination, a copy of `n` files writes `n` distinct targets, one
/// for each file.
pub proof fn distinct_destinations_give_one_target_per_file(
    jobs: Seq<CopyJob>,
    files: Seq<FileInfo>,
    dest: Seq<char>,
)
    requires
        plans(jobs, files, dest),
        forall|i: int, j: int|
            0 <= i < j < files.len() ==> destination_of(dest, files[i].path@, files[i].creation_date)
                != destination_of(dest, files[j].path@, files[j].creation_date),
    ensures
        jobs.len() == files.len(),
        forall|i: int, j: int|
            0 <= i < j < jobs.len() ==> (#[trigger] jobs[i]).target@ != (#[trigger] jobs[j]).target@,
{
    assert forall|i: int, j: int| 0 <= i < j < jobs.len() implies (#[trigger] jobs[i]).target@
        != (#[trigger] jobs[j]).target@ by {
        assert(jobs[i].source@ == files[i].path@);
        assert(jobs[j].source@ == files[j].path@);
    }
}

} // verus!
