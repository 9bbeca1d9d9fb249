//! Where edited text goes. The library never writes files: a caller hands
//! the result to a [`FileOperations`] implementation, which may write to
//! disk or, as [`TestFileOperations`] does, keep the writes in memory.
use vstd::prelude::*;

verus! {

/// Error of the checked accessors of [`TestFileOperations`].
#[derive(Debug, Clone, Copy, PartialEq, Eq, Structural)]
pub enum TestFileOperationsError {
    MutexPoisoned,
}

/// A sink for the text of an edited file.
pub trait FileOperations {
    /// Writes `content` to the file at `path`.
    fn write_file(&mut self, path: String, content: String) -> Result<(), String>;
}

/// Keeps every write in memory, in order, instead of touching the disk.
#[derive(Debug, Clone)]
pub struct TestFileOperations {
    captured_writes: Vec<(String, String)>,
}

/// The path and content of a recorded write, as texts.
pub open spec fn write_view(w: (String, String)) -> (Seq<char>, Seq<char>) {
    (w.0@, w.1@)
}

impl View for TestFileOperations {
    type V = Seq<(Seq<char>, Seq<char>)>;

    closed spec fn view(&self) -> Seq<(Seq<char>, Seq<char>)> {
        self.captured_writes@.map_values(|w: (String, String)| write_view(w))
    }
}

fn copy_writes(writes: &Vec<(String, String)>) -> (r: Vec<(String, String)>)
    ensures
        r@.map_values(|w: (String, String)| write_view(w)) == writes@.map_values(
            |w: (String, String)| write_view(w),
        ),
{
    let mut out: Vec<(String, String)> = Vec::new();
    let mut i: usize = 0;
    while i < writes.len()
        invariant
            i <= writes@.len(),
            out@.map_values(|w: (String, String)| write_view(w)) =~= writes@.take(i as int).map_values(
                |w: (String, String)| write_view(w),
            ),
        decreases writes.len() - i,
    {
        let path = String::from_str(writes[i].0.as_str());
        let content = String::from_str(writes[i].1.as_str());
        let ghost before = out@;
        out.push((path, content));
        proof {
            assert(writes@.take(i + 1) =~= writes@.take(i as int).push(writes@[i as int]));
            assert(out@ =~= before.push((path, content)));
            assert(write_view((path, content)) == write_view(writes@[i as int]));
            assert(out@.map_values(|w: (String, String)| write_view(w)) =~= before.map_values(
                |w: (String, String)| write_view(w),
            ).push(write_view(writes@[i as int])));
            assert(writes@.take(i + 1).map_values(|w: (String, String)| write_view(w)) =~= writes@.take(i as int).map_values(
                |w: (String, String)| write_view(w),
            ).push(write_view(writes@[i as int])));
        }
        i = i + 1;
    }
    assert(writes@.take(writes@.len() as int) =~= writes@);
    out
}

impl TestFileOperations {
    /// Nothing recorded yet.
    pub fn new() -> (r: Self)
        ensures
            r@ == Seq::<(Seq<char>, Seq<char>)>::empty(),
    {
        let r = TestFileOperations { captured_writes: Vec::new() };
        assert(r@ =~= Seq::<(Seq<char>, Seq<char>)>::empty());
        r
    }

    /// Records a write at the end of the log.
    pub fn record_write(&mut self, path: String, content: String)
        ensures
            final(self)@ == old(self)@.push((path@, content@)),
    {
        self.captured_writes.push((path, content));
        assert(self@ =~= old(self)@.push((path@, content@)));
    }

    /// Every recorded write, oldest first.
    pub fn get_captured_writes(&self) -> (r: Vec<(String, String)>)
        ensures
            r@.map_values(|w: (String, String)| write_view(w)) == self@,
    {
        copy_writes(&self.captured_writes)
    }

    /// The content of the latest write, if any.
    pub fn get_last_write_content(&self) -> (r: Option<String>)
        ensures
            self@.len() == 0 ==> r is None,
            self@.len() > 0 ==> r is Some && r->0@ == self@.last().1,
    {
        let n = self.captured_writes.len();
        if n == 0 {
            None
        } else {
            Some(String::from_str(self.captured_writes[n - 1].1.as_str()))
        }
    }

    /// Forgets every recorded write.
    pub fn clear_captures(&mut self)
        ensures
            final(self)@ == Seq::<(Seq<char>, Seq<char>)>::empty(),
    {
        self.captured_writes = Vec::new();
        assert(self@ =~= Seq::<(Seq<char>, Seq<char>)>::empty());
    }

    /// How many writes are recorded.
    pub fn write_count(&self) -> (r: usize)
        ensures
            r == self@.len(),
    {
        self.captured_writes.len()
    }

    /// [`Self::get_captured_writes`]; the log has no lock, so this never fails.
    pub fn get_captured_writes_safe(&self) -> (r: Result<Vec<(String, String)>, TestFileOperationsError>)
        ensures
            r is Ok && r->Ok_0@.map_values(|w: (String, String)| write_view(w)) == self@,
    {
        Ok(self.get_captured_writes())
    }

    /// [`Self::get_last_write_content`], never failing.
    pub fn get_last_write_content_safe(&self) -> (r: Result<Option<String>, TestFileOperationsError>)
        ensures
            r is Ok,
            self@.len() == 0 ==> r->Ok_0 is None,
            self@.len() > 0 ==> r->Ok_0 is Some && r->Ok_0->0@ == self@.last().1,
    {
        Ok(self.get_last_write_content())
    }

    /// [`Self::clear_captures`], never failing.
    pub fn clear_captures_safe(&mut self) -> (r: Result<(), TestFileOperationsError>)
        ensures
            r is Ok,
            final(self)@ == Seq::<(Seq<char>, Seq<char>)>::empty(),
    {
        self.clear_captures();
        Ok(())
    }

    /// [`Self::write_count`], never failing.
    pub fn write_count_safe(&self) -> (r: Result<usize, TestFileOperationsError>)
        ensures
            r is Ok && r->Ok_0 == self@.len(),
    {
        Ok(self.write_count())
    }
}

impl FileOperations for TestFileOperations {
    fn write_file(&mut self, path: String, content: String) -> Result<(), String> {
        self.record_write(path, content);
        Ok(())
    }
}

} // verus!
