use vstd::prelude::*;

verus! {

/// Where the log of a node comes from: a file that the log shipper writes for
/// a host, or a serial line.
#[derive(Debug, Eq, PartialEq, Clone, Copy, Structural)]
pub enum LogSourceTypes {
    HOST,
    SERIAL,
}

/// One source of a node's log.
#[derive(Debug)]
pub struct LogSource {
    pub path: String,
    pub source: LogSourceTypes,
}

/// What a log source holds.
pub struct LogSourceView {
    pub path: Seq<char>,
    pub source: LogSourceTypes,
}

impl View for LogSource {
    type V = LogSourceView;

    open spec fn view(&self) -> LogSourceView {
        LogSourceView { path: self.path@, source: self.source }
    }
}

/// What the log sources of a list hold.
pub open spec fn logsource_views(list: Seq<LogSource>) -> Seq<LogSourceView> {
    Seq::new(list.len(), |i: int| list[i]@)
}

impl Clone for LogSource {
    fn clone(&self) -> (r: Self)
        ensures
            r@ == self@,
    {
        LogSource { path: self.path.clone(), source: self.source }
    }
}

impl LogSource {
    pub fn new(path: String, source: LogSourceTypes) -> (r: Self)
        ensures
            r@ == (LogSourceView { path: path@, source }),
    {
        LogSource { path, source }
    }

    pub fn host(path: String) -> (r: Self)
        ensures
            r@ == (LogSourceView { path: path@, source: LogSourceTypes::HOST }),
    {
        LogSource::new(path, LogSourceTypes::HOST)
    }

    pub fn serial(path: String) -> (r: Self)
        ensures
            r@ == (LogSourceView { path: path@, source: LogSourceTypes::SERIAL }),
    {
        LogSource::new(path, LogSourceTypes::SERIAL)
    }
}

/// Copies of the given log sources, in order.
pub fn clone_sources(list: &Vec<LogSource>) -> (r: Vec<LogSource>)
    ensures
        logsource_views(r@) == logsource_views(list@),
{
    let mut r: Vec<LogSource> = Vec::new();
    let mut i: usize = 0;
    while i < list.len()
        invariant
            i <= list.len(),
            logsource_views(r@) == logsource_views(list@).take(i as int),
        decreases list.len() - i,
    {
        let ghost before = logsource_views(r@);
        let source = list[i].clone();
        r.push(source);
        assert(logsource_views(r@) =~= before.push(source@));
        assert(logsource_views(list@).take(i + 1) =~= logsource_views(list@).take(i as int).push(
            source@,
        ));
        i += 1;
    }
    assert(logsource_views(list@).take(i as int) =~= logsource_views(list@));
    r
}

} // verus!
