//! Table partitions: the builder and the statements it renders.
//!
//! A partition is described by its name, the partitioned table it belongs
//! to, and exactly one partitioning argument: a value range or a hash
//! bucket. The builder validates every identifier and renders the exact
//! statements; executing them is the surrounding process's concern.

use vstd::prelude::*;
use vstd::string::StringExecFns;

use crate::name::{is_valid, name_bytes, name_error_matches, name_fault, valid_name, NameError};
use crate::text::{dec_str, u64_dec_string};

verus! {

/// A hash partitioning argument: this partition takes the rows whose hash
/// leaves `remainder` modulo `modulus`.
pub struct PartitionHash {
    pub modulus: u8,
    pub remainder: u8,
}

/// A range partitioning argument: this partition takes the rows from
/// `from` inclusive to `to` exclusive.
pub struct PartitionRange {
    pub from: String,
    pub to: String,
}

/// Why a partition statement could not be rendered.
#[derive(Debug)]
pub enum PartitionError {
    TableName(NameError),
    PartitionNameMissing,
    FromTableNameMissing,
    InvalidArguments,
}

/// What a partition builder has gathered so far.
pub struct PartitionInner {
    pub name: Option<String>,
    pub from: Option<String>,
    pub range: Option<PartitionRange>,
    pub hash: Option<PartitionHash>,
}

/// Step-by-step description of a partition.
pub struct Partition {
    pub inner: PartitionInner,
}

impl Default for Partition {
    /// A fresh description: nothing chosen yet.
    fn default() -> (r: Self)
        ensures
            r.inner.name is None,
            r.inner.from is None,
            r.inner.range is None,
            r.inner.hash is None,
    {
        Partition {
            inner: PartitionInner {
                name: Option::None,
                from: Option::None,
                range: Option::None,
                hash: Option::None,
            },
        }
    }
}

/// The partitioning clause of a `create table ... partition of` statement.
pub open spec fn partition_clause(
    range: Option<(Seq<char>, Seq<char>)>,
    hash: Option<(u8, u8)>,
) -> Seq<char> {
    (match range {
        Option::Some((from, to)) => "from ('"@ + from + "') to ('"@ + to + "')"@,
        Option::None => Seq::<char>::empty(),
    }) + (match hash {
        Option::Some((m, r)) => "with (modulus "@ + dec_str(m as nat) + ", remainder "@ + dec_str(
            r as nat,
        ) + ")"@,
        Option::None => Seq::<char>::empty(),
    })
}

/// The full `create table ... partition of` statement.
pub open spec fn partition_create_sql(
    name: Seq<char>,
    from: Seq<char>,
    range: Option<(Seq<char>, Seq<char>)>,
    hash: Option<(u8, u8)>,
) -> Seq<char> {
    "create table if not exists "@ + name + " partition of "@ + from + " for values "@
        + partition_clause(range, hash)
}

/// The `alter table ... detach partition` statement.
pub open spec fn partition_detach_sql(name: Seq<char>, from: Seq<char>) -> Seq<char> {
    "alter table "@ + from + " detach partition "@ + name + ";"@
}

/// The concurrent variant of the detach statement.
pub open spec fn partition_detach_concurrently_sql(name: Seq<char>, from: Seq<char>) -> Seq<
    char,
> {
    "alter table "@ + from + " detach partition "@ + name + " concurrently;"@
}

/// The `drop table` statement.
pub open spec fn partition_drop_sql(name: Seq<char>) -> Seq<char> {
    "drop table "@ + name + ";"@
}

/// The name/from validation both detach statements and create share: the
/// partition name must be set and valid, then the source table name.
pub open spec fn names_checked(
    name: Option<Seq<char>>,
    from: Option<Seq<char>>,
    r: Result<(), PartitionError>,
) -> bool {
    match r {
        Result::Ok(()) => {
            &&& name matches Option::Some(n) && valid_name(name_bytes(n))
            &&& from matches Option::Some(f) && valid_name(name_bytes(f))
        },
        Result::Err(PartitionError::PartitionNameMissing) => name is None,
        Result::Err(PartitionError::FromTableNameMissing) => name is Some && name_fault(
            name_bytes(name->0),
        ) is None && from is None,
        Result::Err(PartitionError::TableName(e)) => {
            ||| (name matches Option::Some(n) && name_error_matches(e, name_bytes(n), n))
            ||| (name is Some && name_fault(name_bytes(name->0)) is None && (
            from matches Option::Some(f) && name_error_matches(e, name_bytes(f), f)))
        },
        _ => false,
    }
}

impl Partition {
    /// A fresh description.
    pub fn new() -> (r: Partition)
        ensures
            r.inner.name is None,
            r.inner.from is None,
            r.inner.range is None,
            r.inner.hash is None,
    {
        Partition::default()
    }

    pub fn name(self, name: &str) -> (r: Self)
        ensures
            r.inner.name matches Option::Some(n) && n@ == name@,
            r.inner.from == self.inner.from,
            r.inner.range == self.inner.range,
            r.inner.hash == self.inner.hash,
    {
        let mut this = self;
        this.set_name(Option::Some(name));
        this
    }

    pub fn set_name(&mut self, name: Option<&str>)
        ensures
            match name {
                Option::Some(given) => final(self).inner.name matches Option::Some(n) && n@
                    == given@,
                Option::None => final(self).inner.name is None,
            },
            final(self).inner.from == old(self).inner.from,
            final(self).inner.range == old(self).inner.range,
            final(self).inner.hash == old(self).inner.hash,
    {
        self.inner.name = match name {
            Option::Some(v) => Option::Some(v.to_owned()),
            Option::None => Option::None,
        };
    }

    pub fn from(self, from: &str) -> (r: Self)
        ensures
            r.inner.from matches Option::Some(f) && f@ == from@,
            r.inner.name == self.inner.name,
            r.inner.range == self.inner.range,
            r.inner.hash == self.inner.hash,
    {
        let mut this = self;
        this.set_from(Option::Some(from));
        this
    }

    pub fn set_from(&mut self, from: Option<&str>)
        ensures
            match from {
                Option::Some(given) => final(self).inner.from matches Option::Some(f) && f@
                    == given@,
                Option::None => final(self).inner.from is None,
            },
            final(self).inner.name == old(self).inner.name,
            final(self).inner.range == old(self).inner.range,
            final(self).inner.hash == old(self).inner.hash,
    {
        self.inner.from = match from {
            Option::Some(v) => Option::Some(v.to_owned()),
            Option::None => Option::None,
        };
    }

    pub fn range(self, range: PartitionRange) -> (r: Self)
        ensures
            r.inner.range matches Option::Some(g) && g.from@ == range.from@ && g.to@ == range.to@,
            r.inner.name == self.inner.name,
            r.inner.from == self.inner.from,
            r.inner.hash == self.inner.hash,
    {
        let mut this = self;
        this.set_range(Option::Some(range));
        this
    }

    pub fn set_range(&mut self, range: Option<PartitionRange>)
        ensures
            match range {
                Option::Some(given) => final(self).inner.range matches Option::Some(g) && g.from@
                    == given.from@ && g.to@ == given.to@,
                Option::None => final(self).inner.range is None,
            },
            final(self).inner.name == old(self).inner.name,
            final(self).inner.from == old(self).inner.from,
            final(self).inner.hash == old(self).inner.hash,
    {
        self.inner.range = range;
    }

    pub fn hash(self, hash: PartitionHash) -> (r: Self)
        ensures
            r.inner.hash matches Option::Some(h) && h.modulus == hash.modulus && h.remainder
                == hash.remainder,
            r.inner.name == self.inner.name,
            r.inner.from == self.inner.from,
            r.inner.range == self.inner.range,
    {
        let mut this = self;
        this.set_hash(Option::Some(hash));
        this
    }

    pub fn set_hash(&mut self, hash: Option<PartitionHash>)
        ensures
            match hash {
                Option::Some(given) => final(self).inner.hash matches Option::Some(h) && h.modulus
                    == given.modulus && h.remainder == given.remainder,
                Option::None => final(self).inner.hash is None,
            },
            final(self).inner.name == old(self).inner.name,
            final(self).inner.from == old(self).inner.from,
            final(self).inner.range == old(self).inner.range,
    {
        self.inner.hash = hash;
    }

    /// Renders the create statement: both names must be set and valid, and
    /// exactly one of the range and hash arguments must be given.
    pub fn create_statement(&self) -> (r: Result<String, PartitionError>)
        ensures
            match r {
                Result::Ok(sql) => {
                    &&& names_checked(
                        match self.inner.name {
                            Option::Some(ref n) => Option::Some(n@),
                            Option::None => Option::None,
                        },
                        match self.inner.from {
                            Option::Some(ref f) => Option::Some(f@),
                            Option::None => Option::None,
                        },
                        Result::Ok(()),
                    )
                    &&& (self.inner.range is Some) != (self.inner.hash is Some)
                    &&& sql@ == partition_create_sql(
                        self.inner.name->0@,
                        self.inner.from->0@,
                        match self.inner.range {
                            Option::Some(ref g) => Option::Some((g.from@, g.to@)),
                            Option::None => Option::None,
                        },
                        match self.inner.hash {
                            Option::Some(ref h) => Option::Some((h.modulus, h.remainder)),
                            Option::None => Option::None,
                        },
                    )
                },
                Result::Err(PartitionError::InvalidArguments) => {
                    &&& names_checked(
                        match self.inner.name {
                            Option::Some(ref n) => Option::Some(n@),
                            Option::None => Option::None,
                        },
                        match self.inner.from {
                            Option::Some(ref f) => Option::Some(f@),
                            Option::None => Option::None,
                        },
                        Result::Ok(()),
                    )
                    &&& (self.inner.range is Some) == (self.inner.hash is Some)
                },
                Result::Err(e) => names_checked(
                    match self.inner.name {
                        Option::Some(ref n) => Option::Some(n@),
                        Option::None => Option::None,
                    },
                    match self.inner.from {
                        Option::Some(ref f) => Option::Some(f@),
                        Option::None => Option::None,
                    },
                    Result::Err(e),
                ),
            },
    {
        let name = match &self.inner.name {
            Option::Some(n) => n,
            Option::None => {
                return Result::Err(PartitionError::PartitionNameMissing);
            },
        };
        match is_valid(name.as_str()) {
            Result::Ok(()) => {},
            Result::Err(e) => {
                return Result::Err(PartitionError::TableName(e));
            },
        }
        let from = match &self.inner.from {
            Option::Some(f) => f,
            Option::None => {
                return Result::Err(PartitionError::FromTableNameMissing);
            },
        };
        match is_valid(from.as_str()) {
            Result::Ok(()) => {},
            Result::Err(e) => {
                return Result::Err(PartitionError::TableName(e));
            },
        }
        let has_range = match &self.inner.range {
            Option::Some(_) => true,
            Option::None => false,
        };
        let has_hash = match &self.inner.hash {
            Option::Some(_) => true,
            Option::None => false,
        };
        if has_range == has_hash {
            return Result::Err(PartitionError::InvalidArguments);
        }
        let mut sql: String = "create table if not exists ".to_owned();
        sql.append(name.as_str());
        sql.append(" partition of ");
        sql.append(from.as_str());
        sql.append(" for values ");
        if let Option::Some(range) = &self.inner.range {
            sql.append("from ('");
            sql.append(range.from.as_str());
            sql.append("') to ('");
            sql.append(range.to.as_str());
            sql.append("')");
        }
        if let Option::Some(hash) = &self.inner.hash {
            sql.append("with (modulus ");
            let m = u64_dec_string(hash.modulus as u64);
            sql.append(m.as_str());
            sql.append(", remainder ");
            let rem = u64_dec_string(hash.remainder as u64);
            sql.append(rem.as_str());
            sql.append(")");
        }
        proof {
            assert(sql@ =~= partition_create_sql(
                self.inner.name->0@,
                self.inner.from->0@,
                match self.inner.range {
                    Option::Some(ref g) => Option::Some((g.from@, g.to@)),
                    Option::None => Option::None,
                },
                match self.inner.hash {
                    Option::Some(ref h) => Option::Some((h.modulus, h.remainder)),
                    Option::None => Option::None,
                },
            ));
        }
        Result::Ok(sql)
    }

    /// Renders the detach statement; both names must be set and valid.
    pub fn detach_statement(&self) -> (r: Result<String, PartitionError>)
        ensures
            ({
                let name = match self.inner.name {
                    Option::Some(ref n) => Option::Some(n@),
                    Option::None => Option::<Seq<char>>::None,
                };
                let from = match self.inner.from {
                    Option::Some(ref f) => Option::Some(f@),
                    Option::None => Option::<Seq<char>>::None,
                };
                match r {
                    Result::Ok(sql) => names_checked(name, from, Result::Ok(())) && sql@
                        == partition_detach_sql(name->0, from->0),
                    Result::Err(e) => names_checked(name, from, Result::Err(e)),
                }
            }),
    {
        let name = match &self.inner.name {
            Option::Some(n) => n,
            Option::None => {
                return Result::Err(PartitionError::PartitionNameMissing);
            },
        };
        match is_valid(name.as_str()) {
            Result::Ok(()) => {},
            Result::Err(e) => {
                return Result::Err(PartitionError::TableName(e));
            },
        }
        let from = match &self.inner.from {
            Option::Some(f) => f,
            Option::None => {
                return Result::Err(PartitionError::FromTableNameMissing);
            },
        };
        match is_valid(from.as_str()) {
            Result::Ok(()) => {},
            Result::Err(e) => {
                return Result::Err(PartitionError::TableName(e));
            },
        }
        let mut sql: String = "alter table ".to_owned();
        sql.append(from.as_str());
        sql.append(" detach partition ");
        sql.append(name.as_str());
        sql.append(";");
        proof {
            assert(sql@ =~= partition_detach_sql(self.inner.name->0@, self.inner.from->0@));
        }
        Result::Ok(sql)
    }

    /// Renders the concurrent detach statement; both names must be set and
    /// valid.
    pub fn detach_concurrently_statement(&self) -> (r: Result<String, PartitionError>)
        ensures
            ({
                let name = match self.inner.name {
                    Option::Some(ref n) => Option::Some(n@),
                    Option::None => Option::<Seq<char>>::None,
                };
                let from = match self.inner.from {
                    Option::Some(ref f) => Option::Some(f@),
                    Option::None => Option::<Seq<char>>::None,
                };
                match r {
                    Result::Ok(sql) => names_checked(name, from, Result::Ok(())) && sql@
                        == partition_detach_concurrently_sql(name->0, from->0),
                    Result::Err(e) => names_checked(name, from, Result::Err(e)),
                }
            }),
    {
        let name = match &self.inner.name {
            Option::Some(n) => n,
            Option::None => {
                return Result::Err(PartitionError::PartitionNameMissing);
            },
        };
        match is_valid(name.as_str()) {
            Result::Ok(()) => {},
            Result::Err(e) => {
                return Result::Err(PartitionError::TableName(e));
            },
        }
        let from = match &self.inner.from {
            Option::Some(f) => f,
            Option::None => {
                return Result::Err(PartitionError::FromTableNameMissing);
            },
        };
        match is_valid(from.as_str()) {
            Result::Ok(()) => {},
            Result::Err(e) => {
                return Result::Err(PartitionError::TableName(e));
            },
        }
        let mut sql: String = "alter table ".to_owned();
        sql.append(from.as_str());
        sql.append(" detach partition ");
        sql.append(name.as_str());
        sql.append(" concurrently;");
        proof {
            assert(sql@ =~= partition_detach_concurrently_sql(
                self.inner.name->0@,
                self.inner.from->0@,
            ));
        }
        Result::Ok(sql)
    }

    /// Renders the drop statement; only the partition name is needed.
    pub fn drop_statement(&self) -> (r: Result<String, PartitionError>)
        ensures
            match r {
                Result::Ok(sql) => self.inner.name matches Option::Some(n) && valid_name(
                    name_bytes(n@),
                ) && sql@ == partition_drop_sql(n@),
                Result::Err(PartitionError::PartitionNameMissing) => self.inner.name is None,
                Result::Err(PartitionError::TableName(e)) => self.inner.name matches Option::Some(
                    n,
                ) && name_error_matches(e, name_bytes(n@), n@),
                _ => false,
            },
    {
        let name = match &self.inner.name {
            Option::Some(n) => n,
            Option::None => {
                return Result::Err(PartitionError::PartitionNameMissing);
            },
        };
        match is_valid(name.as_str()) {
            Result::Ok(()) => {},
            Result::Err(e) => {
                return Result::Err(PartitionError::TableName(e));
            },
        }
        let mut sql: String = "drop table ".to_owned();
        sql.append(name.as_str());
        sql.append(";");
        proof {
            assert(sql@ =~= partition_drop_sql(self.inner.name->0@));
        }
        Result::Ok(sql)
    }
}

} // verus!
