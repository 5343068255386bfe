//! Creating databases: the builder and the statement it renders.
//!
//! The builder gathers a database name, an optional owner and an optional
//! template, validates each as a SQL identifier, and renders the exact
//! `create database` statement. Sending the statement to a server is the
//! surrounding process's concern.

use vstd::prelude::*;
use vstd::string::StringExecFns;

use crate::name::{is_valid, name_bytes, name_error_matches, name_fault, valid_name, NameError};

verus! {

/// Why a database statement could not be rendered.
#[derive(Debug)]
pub enum DatabaseError {
    Name(NameError),
    InvalidName,
}

/// What a database builder has gathered so far.
pub struct DatabaseInner {
    pub name: Option<String>,
    pub owner: Option<String>,
    pub template: Option<String>,
}

/// Step-by-step description of a database to create.
pub struct Database {
    pub inner: DatabaseInner,
}

impl Default for Database {
    /// A fresh description: nothing chosen yet.
    fn default() -> (r: Self)
        ensures
            r.inner.name is None,
            r.inner.owner is None,
            r.inner.template is None,
    {
        Database {
            inner: DatabaseInner {
                name: Option::None,
                owner: Option::None,
                template: Option::None,
            },
        }
    }
}

/// The `create database` statement for a name with an optional owner and
/// template.
pub open spec fn database_create_sql(
    name: Seq<char>,
    owner: Option<Seq<char>>,
    template: Option<Seq<char>>,
) -> Seq<char> {
    "create database "@ + name + (match owner {
        Option::Some(o) => "\nowner = "@ + o,
        Option::None => Seq::<char>::empty(),
    }) + (match template {
        Option::Some(t) => "\ntemplate = "@ + t,
        Option::None => Seq::<char>::empty(),
    })
}

impl Database {
    /// A fresh description.
    pub fn new() -> (r: Database)
        ensures
            r.inner.name is None,
            r.inner.owner is None,
            r.inner.template is None,
    {
        Database::default()
    }

    pub fn name(self, name: &str) -> (r: Self)
        ensures
            r.inner.name matches Option::Some(n) && n@ == name@,
            r.inner.owner == self.inner.owner,
            r.inner.template == self.inner.template,
    {
        let mut this = self;
        this.set_name(Option::Some(name));
        this
    }

    pub fn set_name(&mut self, name: Option<&str>)
        ensures
            match name {
                Option::Some(given) => final(self).inner.name matches Option::Some(n) && n@
                    == given@,
                Option::None => final(self).inner.name is None,
            },
            final(self).inner.owner == old(self).inner.owner,
            final(self).inner.template == old(self).inner.template,
    {
        self.inner.name = match name {
            Option::Some(v) => Option::Some(v.to_owned()),
            Option::None => Option::None,
        };
    }

    pub fn owner(self, owner: &str) -> (r: Self)
        ensures
            r.inner.owner matches Option::Some(o) && o@ == owner@,
            r.inner.name == self.inner.name,
            r.inner.template == self.inner.template,
    {
        let mut this = self;
        this.set_owner(Option::Some(owner));
        this
    }

    pub fn set_owner(&mut self, owner: Option<&str>)
        ensures
            match owner {
                Option::Some(given) => final(self).inner.owner matches Option::Some(o) && o@
                    == given@,
                Option::None => final(self).inner.owner is None,
            },
            final(self).inner.name == old(self).inner.name,
            final(self).inner.template == old(self).inner.template,
    {
        self.inner.owner = match owner {
            Option::Some(v) => Option::Some(v.to_owned()),
            Option::None => Option::None,
        };
    }

    pub fn template(self, template: &str) -> (r: Self)
        ensures
            r.inner.template matches Option::Some(t) && t@ == template@,
            r.inner.name == self.inner.name,
            r.inner.owner == self.inner.owner,
    {
        let mut this = self;
        this.set_template(Option::Some(template));
        this
    }

    pub fn set_template(&mut self, template: Option<&str>)
        ensures
            match template {
                Option::Some(given) => final(self).inner.template matches Option::Some(t) && t@
                    == given@,
                Option::None => final(self).inner.template is None,
            },
            final(self).inner.name == old(self).inner.name,
            final(self).inner.owner == old(self).inner.owner,
    {
        self.inner.template = match template {
            Option::Some(v) => Option::Some(v.to_owned()),
            Option::None => Option::None,
        };
    }

    /// Renders the `create database` statement: the name must be set and
    /// every given identifier must validate, in the order name, owner,
    /// template.
    pub fn create_statement(self) -> (r: Result<String, DatabaseError>)
        ensures
            match r {
                Result::Ok(sql) => {
                    &&& self.inner.name matches Option::Some(n)
                    &&& valid_name(name_bytes(self.inner.name->0@))
                    &&& (self.inner.owner matches Option::Some(o) ==> valid_name(name_bytes(o@)))
                    &&& (self.inner.template matches Option::Some(t) ==> valid_name(
                        name_bytes(t@),
                    ))
                    &&& sql@ == database_create_sql(
                        self.inner.name->0@,
                        match self.inner.owner {
                            Option::Some(o) => Option::Some(o@),
                            Option::None => Option::None,
                        },
                        match self.inner.template {
                            Option::Some(t) => Option::Some(t@),
                            Option::None => Option::None,
                        },
                    )
                },
                Result::Err(DatabaseError::InvalidName) => self.inner.name is None,
                Result::Err(DatabaseError::Name(e)) => {
                    &&& self.inner.name matches Option::Some(n)
                    &&& {
                        ||| name_error_matches(e, name_bytes(n@), n@)
                        ||| (name_fault(name_bytes(n@)) is None
                            && (self.inner.owner matches Option::Some(o) && name_error_matches(
                            e,
                            name_bytes(o@),
                            o@,
                        )))
                        ||| (name_fault(name_bytes(n@)) is None && (match self.inner.owner {
                            Option::Some(o) => name_fault(name_bytes(o@)) is None,
                            Option::None => true,
                        }) && (self.inner.template matches Option::Some(t) && name_error_matches(
                            e,
                            name_bytes(t@),
                            t@,
                        )))
                    }
                },
            },
    {
        let name = match self.inner.name {
            Option::Some(n) => n,
            Option::None => {
                return Result::Err(DatabaseError::InvalidName);
            },
        };
        match is_valid(name.as_str()) {
            Result::Ok(()) => {},
            Result::Err(e) => {
                return Result::Err(DatabaseError::Name(e));
            },
        }
        let mut sql: String = "create database ".to_owned();
        sql.append(name.as_str());
        if let Option::Some(owner) = &self.inner.owner {
            match is_valid(owner.as_str()) {
                Result::Ok(()) => {},
                Result::Err(e) => {
                    return Result::Err(DatabaseError::Name(e));
                },
            }
            sql.append("\nowner = ");
            sql.append(owner.as_str());
        }
        if let Option::Some(template) = &self.inner.template {
            match is_valid(template.as_str()) {
                Result::Ok(()) => {},
                Result::Err(e) => {
                    return Result::Err(DatabaseError::Name(e));
                },
            }
            sql.append("\ntemplate = ");
            sql.append(template.as_str());
        }
        proof {
            assert(sql@ =~= database_create_sql(
                name@,
                match self.inner.owner {
                    Option::Some(o) => Option::Some(o@),
                    Option::None => Option::None,
                },
                match self.inner.template {
                    Option::Some(t) => Option::Some(t@),
                    Option::None => Option::None,
                },
            ));
        }
        Result::Ok(sql)
    }
}

} // verus!
