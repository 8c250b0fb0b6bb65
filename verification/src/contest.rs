//! Contest records: the shape of one entry of the listing, how it is read
//! from a JSON object, and which records are open for harvesting.

use crate::instant::{instant_of, rfc3339_instant, Instant};
use crate::json::{
    held, json_tree, optional_bool, optional_text, optional_u32, optional_u64, read_optional_bool,
    read_optional_text, read_optional_u32, read_optional_u64, value_is_object, value_member,
    JsonTree,
};
use crate::text::same_text;
use vstd::prelude::*;

verus! {

/// The sponsor of a contest, as the listing describes it.
#[allow(non_snake_case)]
#[derive(Debug)]
pub struct SponsorData {
    pub created_at: Option<String>,
    pub image: Option<String>,
    pub imageUrl: Option<String>,
    pub link: Option<String>,
    pub name: Option<String>,
    pub uid: Option<String>,
    pub updated_at: Option<String>,
}

/// The model of `SponsorData`.
#[allow(non_snake_case)]
pub struct SponsorView {
    pub created_at: Option<Seq<char>>,
    pub image: Option<Seq<char>>,
    pub imageUrl: Option<Seq<char>>,
    pub link: Option<Seq<char>>,
    pub name: Option<Seq<char>>,
    pub uid: Option<Seq<char>>,
    pub updated_at: Option<Seq<char>>,
}

impl View for SponsorData {
    type V = SponsorView;

    open spec fn view(&self) -> SponsorView {
        SponsorView {
            created_at: self.created_at.deep_view(),
            image: self.image.deep_view(),
            imageUrl: self.imageUrl.deep_view(),
            link: self.link.deep_view(),
            name: self.name.deep_view(),
            uid: self.uid.deep_view(),
            updated_at: self.updated_at.deep_view(),
        }
    }
}

/// One contest of the listing. `kind` holds the listing's `type` member;
/// every other field holds the member of its own name.
#[allow(non_snake_case)]
#[derive(Debug)]
pub struct ContestRecord {
    pub amount: Option<String>,
    pub audit_type: Option<String>,
    pub award_coin: Option<String>,
    pub codeAccess: Option<String>,
    pub code_access: Option<String>,
    pub contest_id: Option<u32>,
    pub contestid: Option<u32>,
    pub details: Option<String>,
    pub end_time: Option<String>,
    pub findingsRepo: Option<String>,
    pub findings_repo: Option<String>,
    pub formatted_amount: Option<String>,
    pub gas_award_pool: Option<u32>,
    pub hide: Option<bool>,
    pub hm_award_pool: Option<u32>,
    pub league: Option<String>,
    pub qa_award_pool: Option<u32>,
    pub repo: Option<String>,
    pub slug: Option<String>,
    pub sponsor: Option<String>,
    pub sponsor_data: SponsorData,
    pub start_time: Option<String>,
    pub status: Option<String>,
    pub title: Option<String>,
    pub total_award_pool: Option<u64>,
    pub kind: Option<String>,
    pub uid: Option<String>,
}

/// The model of `ContestRecord`.
#[allow(non_snake_case)]
pub struct ContestView {
    pub amount: Option<Seq<char>>,
    pub audit_type: Option<Seq<char>>,
    pub award_coin: Option<Seq<char>>,
    pub codeAccess: Option<Seq<char>>,
    pub code_access: Option<Seq<char>>,
    pub contest_id: Option<u32>,
    pub contestid: Option<u32>,
    pub details: Option<Seq<char>>,
    pub end_time: Option<Seq<char>>,
    pub findingsRepo: Option<Seq<char>>,
    pub findings_repo: Option<Seq<char>>,
    pub formatted_amount: Option<Seq<char>>,
    pub gas_award_pool: Option<u32>,
    pub hide: Option<bool>,
    pub hm_award_pool: Option<u32>,
    pub league: Option<Seq<char>>,
    pub qa_award_pool: Option<u32>,
    pub repo: Option<Seq<char>>,
    pub slug: Option<Seq<char>>,
    pub sponsor: Option<Seq<char>>,
    pub sponsor_data: SponsorView,
    pub start_time: Option<Seq<char>>,
    pub status: Option<Seq<char>>,
    pub title: Option<Seq<char>>,
    pub total_award_pool: Option<u64>,
    pub kind: Option<Seq<char>>,
    pub uid: Option<Seq<char>>,
}

impl View for ContestRecord {
    type V = ContestView;

    open spec fn view(&self) -> ContestView {
        ContestView {
            amount: self.amount.deep_view(),
            audit_type: self.audit_type.deep_view(),
            award_coin: self.award_coin.deep_view(),
            codeAccess: self.codeAccess.deep_view(),
            code_access: self.code_access.deep_view(),
            contest_id: self.contest_id,
            contestid: self.contestid,
            details: self.details.deep_view(),
            end_time: self.end_time.deep_view(),
            findingsRepo: self.findingsRepo.deep_view(),
            findings_repo: self.findings_repo.deep_view(),
            formatted_amount: self.formatted_amount.deep_view(),
            gas_award_pool: self.gas_award_pool,
            hide: self.hide,
            hm_award_pool: self.hm_award_pool,
            league: self.league.deep_view(),
            qa_award_pool: self.qa_award_pool,
            repo: self.repo.deep_view(),
            slug: self.slug.deep_view(),
            sponsor: self.sponsor.deep_view(),
            sponsor_data: self.sponsor_data@,
            start_time: self.start_time.deep_view(),
            status: self.status.deep_view(),
            title: self.title.deep_view(),
            total_award_pool: self.total_award_pool,
            kind: self.kind.deep_view(),
            uid: self.uid.deep_view(),
        }
    }
}

/// The models of a sequence of records.
pub open spec fn contest_views(records: Seq<ContestRecord>) -> Seq<ContestView> {
    records.map_values(|record: ContestRecord| record@)
}

/// Is every member that a sponsor may have of the right kind?
pub open spec fn sponsor_well_typed(tree: JsonTree) -> bool {
    &&& tree is Object
    &&& optional_text(tree, "created_at"@) is Some
    &&& optional_text(tree, "image"@) is Some
    &&& optional_text(tree, "imageUrl"@) is Some
    &&& optional_text(tree, "link"@) is Some
    &&& optional_text(tree, "name"@) is Some
    &&& optional_text(tree, "uid"@) is Some
    &&& optional_text(tree, "updated_at"@) is Some
}

/// The sponsor that a JSON value describes: an object whose members, where
/// it has them, are strings or null.
pub open spec fn sponsor_of(tree: JsonTree) -> Option<SponsorView> {
    if sponsor_well_typed(tree) {
        Some(
            SponsorView {
                created_at: held(optional_text(tree, "created_at"@)),
                image: held(optional_text(tree, "image"@)),
                imageUrl: held(optional_text(tree, "imageUrl"@)),
                link: held(optional_text(tree, "link"@)),
                name: held(optional_text(tree, "name"@)),
                uid: held(optional_text(tree, "uid"@)),
                updated_at: held(optional_text(tree, "updated_at"@)),
            },
        )
    } else {
        None
    }
}

/// Is the value an object with a well-typed sponsor, and is every other
/// member that a contest may have of the right kind?
pub open spec fn contest_well_typed(tree: JsonTree) -> bool {
    &&& tree is Object
    &&& optional_text(tree, "amount"@) is Some
    &&& optional_text(tree, "audit_type"@) is Some
    &&& optional_text(tree, "award_coin"@) is Some
    &&& optional_text(tree, "codeAccess"@) is Some
    &&& optional_text(tree, "code_access"@) is Some
    &&& optional_u32(tree, "contest_id"@) is Some
    &&& optional_u32(tree, "contestid"@) is Some
    &&& optional_text(tree, "details"@) is Some
    &&& optional_text(tree, "end_time"@) is Some
    &&& optional_text(tree, "findingsRepo"@) is Some
    &&& optional_text(tree, "findings_repo"@) is Some
    &&& optional_text(tree, "formatted_amount"@) is Some
    &&& optional_u32(tree, "gas_award_pool"@) is Some
    &&& optional_bool(tree, "hide"@) is Some
    &&& optional_u32(tree, "hm_award_pool"@) is Some
    &&& optional_text(tree, "league"@) is Some
    &&& optional_u32(tree, "qa_award_pool"@) is Some
    &&& optional_text(tree, "repo"@) is Some
    &&& optional_text(tree, "slug"@) is Some
    &&& optional_text(tree, "sponsor"@) is Some
    &&& tree.member("sponsor_data"@) matches Some(sponsor) && sponsor_well_typed(sponsor)
    &&& optional_text(tree, "start_time"@) is Some
    &&& optional_text(tree, "status"@) is Some
    &&& optional_text(tree, "title"@) is Some
    &&& optional_u64(tree, "total_award_pool"@) is Some
    &&& optional_text(tree, "type"@) is Some
    &&& optional_text(tree, "uid"@) is Some
}

/// The contest that a JSON value describes, or `None` where the value is not
/// shaped like one. Members that this record does not name are ignored.
pub open spec fn contest_of(tree: JsonTree) -> Option<ContestView> {
    if contest_well_typed(tree) {
        Some(
            ContestView {
                amount: held(optional_text(tree, "amount"@)),
                audit_type: held(optional_text(tree, "audit_type"@)),
                award_coin: held(optional_text(tree, "award_coin"@)),
                codeAccess: held(optional_text(tree, "codeAccess"@)),
                code_access: held(optional_text(tree, "code_access"@)),
                contest_id: held(optional_u32(tree, "contest_id"@)),
                contestid: held(optional_u32(tree, "contestid"@)),
                details: held(optional_text(tree, "details"@)),
                end_time: held(optional_text(tree, "end_time"@)),
                findingsRepo: held(optional_text(tree, "findingsRepo"@)),
                findings_repo: held(optional_text(tree, "findings_repo"@)),
                formatted_amount: held(optional_text(tree, "formatted_amount"@)),
                gas_award_pool: held(optional_u32(tree, "gas_award_pool"@)),
                hide: held(optional_bool(tree, "hide"@)),
                hm_award_pool: held(optional_u32(tree, "hm_award_pool"@)),
                league: held(optional_text(tree, "league"@)),
                qa_award_pool: held(optional_u32(tree, "qa_award_pool"@)),
                repo: held(optional_text(tree, "repo"@)),
                slug: held(optional_text(tree, "slug"@)),
                sponsor: held(optional_text(tree, "sponsor"@)),
                sponsor_data: sponsor_of(tree.member("sponsor_data"@).unwrap()).unwrap(),
                start_time: held(optional_text(tree, "start_time"@)),
                status: held(optional_text(tree, "status"@)),
                title: held(optional_text(tree, "title"@)),
                total_award_pool: held(optional_u64(tree, "total_award_pool"@)),
                kind: held(optional_text(tree, "type"@)),
                uid: held(optional_text(tree, "uid"@)),
            },
        )
    } else {
        None
    }
}

/// The contests that a sequence of JSON values describes: each value that is
/// shaped like a contest, in order; the others are left out.
pub open spec fn contests_of(trees: Seq<JsonTree>) -> Seq<ContestView> {
    trees.filter_map(|tree: JsonTree| contest_of(tree))
}

impl ContestView {
    /// When the contest ends, where its `end_time` is an RFC 3339 time.
    pub open spec fn end_instant(self) -> Option<Instant> {
        match self.end_time {
            Some(text) => rfc3339_instant(text),
            None => None,
        }
    }

    /// Active: the contest ends strictly after `now`. A contest without a
    /// readable end is not active.
    pub open spec fn active_at(self, now: Instant) -> bool {
        ends_after(self.end_instant(), now)
    }

    /// Is the code of the contest open to the public?
    pub open spec fn is_public(self) -> bool {
        self.code_access == Some("public"@)
    }

    /// Eligible: active and public.
    pub open spec fn eligible_at(self, now: Instant) -> bool {
        self.active_at(now) && self.is_public()
    }
}

/// Does a contest with this end go on after `now`?
pub open spec fn ends_after(end: Option<Instant>, now: Instant) -> bool {
    match end {
        Some(end) => end.is_after(now),
        None => false,
    }
}

/// Public access never makes a contest eligible that has ended, and never
/// is needed for a contest to be active. At any `now`, a contest whose end
/// is not after `now` is neither active nor eligible; one whose end is after
/// `now` is active, and is eligible exactly if its access is public.
pub proof fn lemma_eligibility(record: ContestView, now: Instant)
    ensures
        !ends_after(record.end_instant(), now) ==> !record.active_at(now) && !record.eligible_at(
            now,
        ),
        ends_after(record.end_instant(), now) ==> record.active_at(now) && (record.eligible_at(now)
            <==> record.is_public()),
{
}

/// A contest that ended one second before `now` is left out by both filters,
/// whatever its access. One that ends one second after `now` is kept by the
/// filter for active contests, and by the stricter filter exactly if its
/// access is public.
pub proof fn lemma_one_second(record: ContestView, end: Instant, now: Instant)
    requires
        record.end_instant() == Some(end),
        end.nanos == now.nanos,
    ensures
        end.secs == now.secs - 1 ==> !record.active_at(now) && !record.eligible_at(now),
        end.secs == now.secs + 1 ==> record.active_at(now) && (record.eligible_at(now)
            <==> record.is_public()),
{
}

/// The stricter filter keeps what the filter for public access keeps of the
/// active contests, in the same order.
pub proof fn lemma_eligible_of_active(records: Seq<ContestView>, now: Instant)
    ensures
        records.filter(|record: ContestView| record.eligible_at(now)) == records.filter(
            |record: ContestView| record.active_at(now),
        ).filter(|record: ContestView| record.is_public()),
    decreases records.len(),
{
    let eligible = |record: ContestView| record.eligible_at(now);
    let active = |record: ContestView| record.active_at(now);
    let public = |record: ContestView| record.is_public();
    reveal(Seq::filter);
    if records.len() > 0 {
        let rest = records.drop_last();
        let last = records.last();
        lemma_eligible_of_active(rest, now);
        assert(records =~= rest.push(last));
        rest.lemma_filter_push(last, eligible);
        rest.lemma_filter_push(last, active);
        rest.filter(active).lemma_filter_push(last, public);
    }
}

impl Default for SponsorData {
    fn default() -> (sponsor: SponsorData)
        ensures
            sponsor@ == (SponsorView {
                created_at: None,
                image: None,
                imageUrl: None,
                link: None,
                name: None,
                uid: None,
                updated_at: None,
            }),
    {
        SponsorData {
            created_at: None,
            image: None,
            imageUrl: None,
            link: None,
            name: None,
            uid: None,
            updated_at: None,
        }
    }
}

impl Default for ContestRecord {
    fn default() -> (record: ContestRecord)
        ensures
            record@ == (ContestView {
                amount: None,
                audit_type: None,
                award_coin: None,
                codeAccess: None,
                code_access: None,
                contest_id: None,
                contestid: None,
                details: None,
                end_time: None,
                findingsRepo: None,
                findings_repo: None,
                formatted_amount: None,
                gas_award_pool: None,
                hide: None,
                hm_award_pool: None,
                league: None,
                qa_award_pool: None,
                repo: None,
                slug: None,
                sponsor: None,
                sponsor_data: SponsorView {
                    created_at: None,
                    image: None,
                    imageUrl: None,
                    link: None,
                    name: None,
                    uid: None,
                    updated_at: None,
                },
                start_time: None,
                status: None,
                title: None,
                total_award_pool: None,
                kind: None,
                uid: None,
            }),
    {
        ContestRecord {
            amount: None,
            audit_type: None,
            award_coin: None,
            codeAccess: None,
            code_access: None,
            contest_id: None,
            contestid: None,
            details: None,
            end_time: None,
            findingsRepo: None,
            findings_repo: None,
            formatted_amount: None,
            gas_award_pool: None,
            hide: None,
            hm_award_pool: None,
            league: None,
            qa_award_pool: None,
            repo: None,
            slug: None,
            sponsor: None,
            sponsor_data: SponsorData::default(),
            start_time: None,
            status: None,
            title: None,
            total_award_pool: None,
            kind: None,
            uid: None,
        }
    }
}

/// Reads a sponsor from a JSON value.
pub fn read_sponsor(value: &serde_json::Value) -> (sponsor: Option<SponsorData>)
    ensures
        match sponsor {
            Some(sponsor) => sponsor_of(json_tree(*value)) == Some(sponsor@),
            None => sponsor_of(json_tree(*value)) is None,
        },
{
    if !value_is_object(value) {
        return None;
    }
    let created_at = match read_optional_text(value, "created_at") {
        Some(field) => field,
        None => return None,
    };
    let image = match read_optional_text(value, "image") {
        Some(field) => field,
        None => return None,
    };
    let imageUrl = match read_optional_text(value, "imageUrl") {
        Some(field) => field,
        None => return None,
    };
    let link = match read_optional_text(value, "link") {
        Some(field) => field,
        None => return None,
    };
    let name = match read_optional_text(value, "name") {
        Some(field) => field,
        None => return None,
    };
    let uid = match read_optional_text(value, "uid") {
        Some(field) => field,
        None => return None,
    };
    let updated_at = match read_optional_text(value, "updated_at") {
        Some(field) => field,
        None => return None,
    };
    Some(SponsorData { created_at, image, imageUrl, link, name, uid, updated_at })
}

/// Reads a contest from a JSON value.
pub fn read_contest(value: &serde_json::Value) -> (record: Option<ContestRecord>)
    ensures
        match record {
            Some(record) => contest_of(json_tree(*value)) == Some(record@),
            None => contest_of(json_tree(*value)) is None,
        },
{
    if !value_is_object(value) {
        return None;
    }
    let amount = match read_optional_text(value, "amount") {
        Some(field) => field,
        None => return None,
    };
    let audit_type = match read_optional_text(value, "audit_type") {
        Some(field) => field,
        None => return None,
    };
    let award_coin = match read_optional_text(value, "award_coin") {
        Some(field) => field,
        None => return None,
    };
    let codeAccess = match read_optional_text(value, "codeAccess") {
        Some(field) => field,
        None => return None,
    };
    let code_access = match read_optional_text(value, "code_access") {
        Some(field) => field,
        None => return None,
    };
    let contest_id = match read_optional_u32(value, "contest_id") {
        Some(field) => field,
        None => return None,
    };
    let contestid = match read_optional_u32(value, "contestid") {
        Some(field) => field,
        None => return None,
    };
    let details = match read_optional_text(value, "details") {
        Some(field) => field,
        None => return None,
    };
    let end_time = match read_optional_text(value, "end_time") {
        Some(field) => field,
        None => return None,
    };
    let findingsRepo = match read_optional_text(value, "findingsRepo") {
        Some(field) => field,
        None => return None,
    };
    let findings_repo = match read_optional_text(value, "findings_repo") {
        Some(field) => field,
        None => return None,
    };
    let formatted_amount = match read_optional_text(value, "formatted_amount") {
        Some(field) => field,
        None => return None,
    };
    let gas_award_pool = match read_optional_u32(value, "gas_award_pool") {
        Some(field) => field,
        None => return None,
    };
    let hide = match read_optional_bool(value, "hide") {
        Some(field) => field,
        None => return None,
    };
    let hm_award_pool = match read_optional_u32(value, "hm_award_pool") {
        Some(field) => field,
        None => return None,
    };
    let league = match read_optional_text(value, "league") {
        Some(field) => field,
        None => return None,
    };
    let qa_award_pool = match read_optional_u32(value, "qa_award_pool") {
        Some(field) => field,
        None => return None,
    };
    let repo = match read_optional_text(value, "repo") {
        Some(field) => field,
        None => return None,
    };
    let slug = match read_optional_text(value, "slug") {
        Some(field) => field,
        None => return None,
    };
    let sponsor = match read_optional_text(value, "sponsor") {
        Some(field) => field,
        None => return None,
    };
    let sponsor_data = match value_member(value, "sponsor_data") {
        Some(member) => match read_sponsor(member) {
            Some(sponsor) => sponsor,
            None => return None,
        },
        None => return None,
    };
    let start_time = match read_optional_text(value, "start_time") {
        Some(field) => field,
        None => return None,
    };
    let status = match read_optional_text(value, "status") {
        Some(field) => field,
        None => return None,
    };
    let title = match read_optional_text(value, "title") {
        Some(field) => field,
        None => return None,
    };
    let total_award_pool = match read_optional_u64(value, "total_award_pool") {
        Some(field) => field,
        None => return None,
    };
    let kind = match read_optional_text(value, "type") {
        Some(field) => field,
        None => return None,
    };
    let uid = match read_optional_text(value, "uid") {
        Some(field) => field,
        None => return None,
    };
    Some(
        ContestRecord {
            amount,
            audit_type,
            award_coin,
            codeAccess,
            code_access,
            contest_id,
            contestid,
            details,
            end_time,
            findingsRepo,
            findings_repo,
            formatted_amount,
            gas_award_pool,
            hide,
            hm_award_pool,
            league,
            qa_award_pool,
            repo,
            slug,
            sponsor,
            sponsor_data,
            start_time,
            status,
            title,
            total_award_pool,
            kind,
            uid,
        },
    )
}

/// Reads every contest out of an array of JSON values, leaving out the
/// values that are not shaped like one.
pub fn read_contests(values: &Vec<serde_json::Value>) -> (records: Vec<ContestRecord>)
    ensures
        contest_views(records@) == contests_of(crate::json::json_trees(values@)),
{
    let mut records: Vec<ContestRecord> = Vec::new();
    let ghost trees = crate::json::json_trees(values@);
    let ghost pick = |tree: JsonTree| contest_of(tree);
    let mut i: usize = 0;
    proof {
        assert(trees.take(0).filter_map(pick) =~= Seq::<ContestView>::empty());
        assert(contest_views(records@) =~= Seq::<ContestView>::empty());
    }
    while i < values.len()
        invariant
            i <= values.len(),
            trees == crate::json::json_trees(values@),
            pick == (|tree: JsonTree| contest_of(tree)),
            contest_views(records@) == trees.take(i as int).filter_map(pick),
        decreases values.len() - i,
    {
        let ghost before = contest_views(records@);
        proof {
            trees.lemma_filter_map_take_succ(pick, i as int);
            assert(trees[i as int] == json_tree(values@[i as int]));
        }
        match read_contest(&values[i]) {
            Some(record) => {
                let ghost view = record@;
                records.push(record);
                proof {
                    assert(contest_views(records@) =~= before.push(view));
                }
            },
            None => {},
        }
        i += 1;
    }
    proof {
        assert(trees.take(values@.len() as int) =~= trees);
    }
    records
}

/// Does a contest with this end go on after `now`?
pub fn still_open(end: Option<Instant>, now: Instant) -> (open: bool)
    ensures
        open == ends_after(end, now),
{
    match end {
        Some(end) => end.after(&now),
        None => false,
    }
}

/// When the contest ends, where its `end_time` is an RFC 3339 time.
pub fn end_of(record: &ContestRecord) -> (end: Option<Instant>)
    ensures
        end == record@.end_instant(),
{
    match &record.end_time {
        Some(text) => instant_of(text.as_str()),
        None => None,
    }
}

/// Is the contest active at `now`?
pub fn is_active(record: &ContestRecord, now: Instant) -> (active: bool)
    ensures
        active == record@.active_at(now),
{
    still_open(end_of(record), now)
}

/// Is the code of the contest open to the public?
pub fn is_public(record: &ContestRecord) -> (public: bool)
    ensures
        public == record@.is_public(),
{
    match &record.code_access {
        Some(access) => same_text(access.as_str(), "public"),
        None => false,
    }
}

/// Is the contest eligible at `now`: active, and public?
pub fn is_eligible(record: &ContestRecord, now: Instant) -> (eligible: bool)
    ensures
        eligible == record@.eligible_at(now),
{
    is_active(record, now) && is_public(record)
}

/// The records that are active at `now`, in their order. `now` is read once
/// by the caller, so one pass judges every record by the same clock.
pub fn filter_active(records: Vec<ContestRecord>, now: Instant) -> (kept: Vec<ContestRecord>)
    ensures
        contest_views(kept@) == contest_views(records@).filter(
            |record: ContestView| record.active_at(now),
        ),
{
    let ghost all = contest_views(records@);
    let ghost keep = |record: ContestView| record.active_at(now);
    let mut kept: Vec<ContestRecord> = Vec::new();
    proof {
        reveal(Seq::filter);
        assert(contest_views(kept@) =~= Seq::<ContestView>::empty());
        assert(all.take(0) =~= Seq::<ContestView>::empty());
    }
    for record in it: records
        invariant
            all == contest_views(it.seq()),
            keep == (|record: ContestView| record.active_at(now)),
            contest_views(kept@) == all.take(it.index() as int).filter(keep),
    {
        let ghost before = contest_views(kept@);
        let ghost view = record@;
        proof {
            assert(all.take(it.index() + 1) =~= all.take(it.index() as int).push(view));
            all.take(it.index() as int).lemma_filter_push(view, keep);
        }
        if is_active(&record, now) {
            kept.push(record);
            proof {
                assert(contest_views(kept@) =~= before.push(view));
            }
        }
    }
    proof {
        assert(all.take(all.len() as int) =~= all);
    }
    kept
}

/// The records that are eligible at `now`, in their order: the stricter
/// filter, which also asks for public access.
pub fn filter_eligible(records: Vec<ContestRecord>, now: Instant) -> (kept: Vec<ContestRecord>)
    ensures
        contest_views(kept@) == contest_views(records@).filter(
            |record: ContestView| record.eligible_at(now),
        ),
{
    let ghost all = contest_views(records@);
    let ghost keep = |record: ContestView| record.eligible_at(now);
    let mut kept: Vec<ContestRecord> = Vec::new();
    proof {
        reveal(Seq::filter);
        assert(contest_views(kept@) =~= Seq::<ContestView>::empty());
        assert(all.take(0) =~= Seq::<ContestView>::empty());
    }
    for record in it: records
        invariant
            all == contest_views(it.seq()),
            keep == (|record: ContestView| record.eligible_at(now)),
            contest_views(kept@) == all.take(it.index() as int).filter(keep),
    {
        let ghost before = contest_views(kept@);
        let ghost view = record@;
        proof {
            assert(all.take(it.index() + 1) =~= all.take(it.index() as int).push(view));
            all.take(it.index() as int).lemma_filter_push(view, keep);
        }
        if is_eligible(&record, now) {
            kept.push(record);
            proof {
                assert(contest_views(kept@) =~= before.push(view));
            }
        }
    }
    proof {
        assert(all.take(all.len() as int) =~= all);
    }
    kept
}

} // verus!
