//! The local store of partition files: where the files are fetched from,
//! where they are kept, and how a partition's file and its remote source are
//! named.

use crate::calendar::is_month;
use crate::text::append_decimal;
use crate::text::append_two_wide;
use crate::text::decimal;
use crate::text::lemma_decimal_injective;
use crate::text::two_wide;
use vstd::prelude::*;
use vstd::string::StringExecFns;

verus! {

/// The name of the file that holds the partition of `month` in `year`.
pub open spec fn file_name(year: int, month: int) -> Seq<char> {
    "yellow_tripdata_"@ + decimal(year) + "-"@ + two_wide(month) + ".parquet"@
}

/// A month is written in two characters.
pub proof fn lemma_month_is_two_wide(month: int)
    requires
        is_month(month),
    ensures
        two_wide(month).len() == 2,
        two_wide(month) == seq![two_wide(month)[0], two_wide(month)[1]],
        month < 10 ==> two_wide(month)[0] == '0' && two_wide(month)[1] == crate::text::digit(month),
        month >= 10 ==> two_wide(month)[0] == '1' && two_wide(month)[1] == crate::text::digit(
            month - 10,
        ),
{
    reveal_with_fuel(crate::text::natural_digits, 3);
    assert(two_wide(month) =~= seq![two_wide(month)[0], two_wide(month)[1]]);
}

/// Different months are written differently.
pub proof fn lemma_month_injective(m1: int, m2: int)
    requires
        is_month(m1),
        is_month(m2),
        two_wide(m1) == two_wide(m2),
    ensures
        m1 == m2,
{
    lemma_month_is_two_wide(m1);
    lemma_month_is_two_wide(m2);
    assert(two_wide(m1)[0] == two_wide(m2)[0]);
    assert(two_wide(m1)[1] == two_wide(m2)[1]);
    if m1 < 10 {
        crate::text::lemma_digit_injective(m1, m2);
    } else {
        crate::text::lemma_digit_injective(m1 - 10, m2 - 10);
    }
}

/// No two partitions share a file name.
pub proof fn lemma_file_name_injective(y1: int, m1: int, y2: int, m2: int)
    requires
        is_month(m1),
        is_month(m2),
        file_name(y1, m1) == file_name(y2, m2),
    ensures
        y1 == y2,
        m1 == m2,
{
    reveal_strlit("yellow_tripdata_");
    reveal_strlit("-");
    reveal_strlit(".parquet");
    lemma_month_is_two_wide(m1);
    lemma_month_is_two_wide(m2);
    let n1 = file_name(y1, m1);
    let n2 = file_name(y2, m2);
    let d1 = decimal(y1);
    let d2 = decimal(y2);
    assert(n1.len() == 16 + d1.len() + 1 + 2 + 8);
    assert(n2.len() == 16 + d2.len() + 1 + 2 + 8);
    assert(d1.len() == d2.len());
    let width = d1.len() as int;
    assert(n1.subrange(16, 16 + width) =~= d1);
    assert(n2.subrange(16, 16 + width) =~= d2);
    assert(n1.subrange(17 + width, 19 + width) =~= two_wide(m1));
    assert(n2.subrange(17 + width, 19 + width) =~= two_wide(m2));
    lemma_decimal_injective(y1, y2);
    lemma_month_injective(m1, m2);
}

/// Where partition files are fetched from and where they are kept.
pub struct PartitionStore {
    /// The address of the remote directory, with the separator that ends it.
    pub base_url: String,
    /// The local directory of the cache, with the separator that ends it, or
    /// nothing for the working directory.
    pub cache_dir: String,
}

impl PartitionStore {
    /// The local path of the file of `month` in `year`.
    pub open spec fn path_of(self, year: int, month: int) -> Seq<char> {
        self.cache_dir@ + file_name(year, month)
    }

    /// The path under which the attempt numbered `tag` writes the file
    /// before the file takes its name.
    pub open spec fn staging_of(self, year: int, month: int, tag: int) -> Seq<char> {
        self.path_of(year, month) + "."@ + decimal(tag) + ".part"@
    }

    /// The remote address of the file of `month` in `year`.
    pub open spec fn url_of(self, year: int, month: int) -> Seq<char> {
        self.base_url@ + file_name(year, month)
    }

    /// The public source of the yellow-taxi trip records, cached in the
    /// working directory.
    pub fn standard() -> (store: PartitionStore)
        ensures
            store.base_url@ == "https://d37ci6vzurychx.cloudfront.net/trip-data/"@,
            store.cache_dir@ == Seq::<char>::empty(),
    {
        PartitionStore {
            base_url: String::from_str("https://d37ci6vzurychx.cloudfront.net/trip-data/"),
            cache_dir: String::new(),
        }
    }

    /// Appends the name of the file of `month` in `year` to `out`.
    fn append_file_name(out: &mut String, year: i32, month: i32)
        ensures
            final(out)@ == old(out)@ + file_name(year as int, month as int),
    {
        out.append("yellow_tripdata_");
        append_decimal(out, year as i64);
        out.append("-");
        append_two_wide(out, month as i64);
        out.append(".parquet");
        assert(out@ =~= old(out)@ + file_name(year as int, month as int));
    }

    /// The local path of the file of `month` in `year`.
    pub fn file_path(&self, year: i32, month: i32) -> (path: String)
        ensures
            path@ == self.path_of(year as int, month as int),
    {
        let mut path = self.cache_dir.clone();
        Self::append_file_name(&mut path, year, month);
        path
    }

    /// The path under which the attempt numbered `tag` writes the file
    /// before the file takes its name.
    pub fn staging_path(&self, year: i32, month: i32, tag: u32) -> (path: String)
        ensures
            path@ == self.staging_of(year as int, month as int, tag as int),
    {
        let mut path = self.file_path(year, month);
        path.append(".");
        append_decimal(&mut path, tag as i64);
        path.append(".part");
        path
    }

    /// The remote address of the file of `month` in `year`.
    pub fn remote_url(&self, year: i32, month: i32) -> (url: String)
        ensures
            url@ == self.url_of(year as int, month as int),
    {
        let mut url = self.base_url.clone();
        Self::append_file_name(&mut url, year, month);
        url
    }

    /// No two partitions share a local path, and none a remote address.
    pub proof fn lemma_names_are_apart(self, y1: int, m1: int, y2: int, m2: int)
        requires
            is_month(m1),
            is_month(m2),
            y1 != y2 || m1 != m2,
        ensures
            self.path_of(y1, m1) != self.path_of(y2, m2),
            self.url_of(y1, m1) != self.url_of(y2, m2),
    {
        let n1 = file_name(y1, m1);
        let n2 = file_name(y2, m2);
        if n1 == n2 {
            lemma_file_name_injective(y1, m1, y2, m2);
        }
        let dir = self.cache_dir@;
        let base = self.base_url@;
        if dir + n1 == dir + n2 {
            assert((dir + n1).subrange(dir.len() as int, (dir + n1).len() as int) =~= n1);
            assert((dir + n2).subrange(dir.len() as int, (dir + n2).len() as int) =~= n2);
        }
        if base + n1 == base + n2 {
            assert((base + n1).subrange(base.len() as int, (base + n1).len() as int) =~= n1);
            assert((base + n2).subrange(base.len() as int, (base + n2).len() as int) =~= n2);
        }
    }
}

} // verus!
