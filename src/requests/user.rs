use vstd::prelude::*;
use vstd::string::StringExecFns;

use crate::errors::Error;

verus! {

/// A request to log in.
#[derive(Debug, PartialEq)]
pub struct Login {
    pub name: String,
    pub password: String,
}

/// A request to create an account.
#[derive(Debug, PartialEq)]
pub struct Signup {
    pub name: String,
    pub password: String,
}

/// Both a name and a password must be given.
pub fn check_credentials(name: &str, password: &str) -> (r: Result<(), Error>)
    ensures
        r is Ok <==> name@.len() > 0 && password@.len() > 0,
        r is Err ==> r == Err::<(), Error>(Error::MissingCredential),
{
    if name.is_empty() || password.is_empty() {
        Err(Error::MissingCredential)
    } else {
        Ok(())
    }
}

impl Login {
    pub fn check(&self) -> (r: Result<(), Error>)
        ensures
            r is Ok <==> self.name@.len() > 0 && self.password@.len() > 0,
            r is Err ==> r == Err::<(), Error>(Error::MissingCredential),
    {
        check_credentials(self.name.as_str(), self.password.as_str())
    }
}

impl Signup {
    pub fn check(&self) -> (r: Result<(), Error>)
        ensures
            r is Ok <==> self.name@.len() > 0 && self.password@.len() > 0,
            r is Err ==> r == Err::<(), Error>(Error::MissingCredential),
    {
        check_credentials(self.name.as_str(), self.password.as_str())
    }
}

/// The query for the account named `name`.
pub fn user_query(name: &str) -> (r: String)
    ensures
        r@ == "select * from user where name = '"@ + name@ + "'"@,
{
    let mut q = String::new();
    q.append("select * from user where name = '");
    q.append(name);
    q.append("'");
    q
}

/// The statement that records the account `user_id` as uploader of the
/// image or creator of the tag `target_id`.
pub fn upload_statement(user_id: &str, target_id: &str) -> (r: String)
    ensures
        r@ == "relate "@ + user_id@ + "->upload->"@ + target_id@ + ";"@,
{
    let mut q = String::new();
    q.append("relate ");
    q.append(user_id);
    q.append("->upload->");
    q.append(target_id);
    q.append(";");
    q
}

} // verus!
