use vstd::prelude::*;

verus! {

/// Where balance metrics are pushed, and with which credentials.
#[derive(Debug, Clone)]
pub struct Prom {
    pub job: String,
    pub url: String,
    pub instance: String,
    pub desc: String,
    pub username: String,
    pub password: String,
}

impl Prom {
    pub fn new(
        job: String,
        url: String,
        instance: String,
        desc: String,
        username: String,
        password: String,
    ) -> (r: Prom)
        ensures
            r.job@ == job@,
            r.url@ == url@,
            r.instance@ == instance@,
            r.desc@ == desc@,
            r.username@ == username@,
            r.password@ == password@,
    {
        Prom { job, url, instance, desc, username, password }
    }
}

} // verus!
