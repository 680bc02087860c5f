//! The agency record of a GTFS-JP feed, with the metadata of its file
//! and of its table in the store.

use vstd::prelude::*;

verus! {

/// Agency id, e.g. `8000020130001` or `8000020130001_1`.
pub type AgencyId = String;

/// An http or https address.
pub type Url = String;

/// A timezone name, e.g. `Asia/Tokyo`.
pub type Timezone = String;

/// A language code, e.g. `ja`.
pub type Lang = String;

/// A telephone number, e.g. `03-2816-5700`.
pub type TelephoneNumber = String;

/// An e-mail address.
pub type MailAddress = String;

/// One operator of the feed, as `agency.txt` describes it.
#[derive(Debug, Clone, PartialEq, Eq, Hash)]
pub struct Agency {
    pub agency_id: AgencyId,
    /// Name of the operator, e.g. a bus company.
    pub agency_name: String,
    pub agency_url: Url,
    pub agency_timezone: Timezone,
    pub agency_lang: Option<Lang>,
    pub agency_phone: Option<TelephoneNumber>,
    /// Where tickets can be bought online.
    pub agency_fare_url: Option<Url>,
    pub agency_email: Option<MailAddress>,
}

impl Agency {
    /// The feed file these records are read from.
    pub fn file_name() -> (r: &'static str)
        ensures
            r@ == "agency.txt"@,
    {
        "agency.txt"
    }

    /// The table these records are stored in.
    pub fn table_name() -> (r: &'static str)
        ensures
            r@ == "agency"@,
    {
        "agency"
    }

    /// The columns of that table, in insertion order.
    pub fn column_names() -> (r: Vec<&'static str>)
        ensures
            r.deep_view() == seq![
                "agency_id"@,
                "agency_name"@,
                "agency_url"@,
                "agency_timezone"@,
                "agency_lang"@,
                "agency_phone"@,
                "agency_fare_url"@,
                "agency_email"@,
            ],
    {
        let mut names: Vec<&'static str> = Vec::new();
        names.push("agency_id");
        names.push("agency_name");
        names.push("agency_url");
        names.push("agency_timezone");
        names.push("agency_lang");
        names.push("agency_phone");
        names.push("agency_fare_url");
        names.push("agency_email");
        assert(names.deep_view() =~= seq![
            "agency_id"@,
            "agency_name"@,
            "agency_url"@,
            "agency_timezone"@,
            "agency_lang"@,
            "agency_phone"@,
            "agency_fare_url"@,
            "agency_email"@,
        ]);
        names
    }

    /// The column declarations of the table's schema.
    pub fn create_sql() -> (r: &'static str)
        ensures
            r@ == "agency_id text primary key, agency_name text not null, agency_url text not null, agency_timezone text not null, agency_lang text, agency_phone text, agency_fare_url text, agency_email text"@,
    {
        "agency_id text primary key, agency_name text not null, agency_url text not null, agency_timezone text not null, agency_lang text, agency_phone text, agency_fare_url text, agency_email text"
    }
}

} // verus!
