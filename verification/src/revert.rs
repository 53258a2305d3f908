//! Reverting a recorded edit: what each recorded change writes back.
use vstd::prelude::*;
use crate::audit::{
    cents_of_text, changes_view, money_text, opt_view, optional_money_text, spec_audit_text,
    spec_entry_audit_changes, tags_text, whole_yuan_text, EntryAuditSnapshot,
};
use crate::models::AuditChange;
use crate::money::{law_money_text_reads_back, lemma_decimal_value, parse_amount_fen, spec_parse_amount_fen};
use crate::text::{
    char_vecs_view, chars_eq_str, concat3, contains_chars, contains_seq, lemma_take_full, owned,
    split_chars, split_on, str_chars, string_from_chars, strings_view, trim, trim_chars,
};

verus! {

/// What reverting one recorded change writes back. Texts are the recorded
/// values; `None` clears an optional field; tag lists name the tags the
/// person has again, in order.
#[derive(Debug, Clone)]
pub enum RevertStep {
    /// The person's tags become exactly the named ones.
    PersonTags(Vec<String>),
    VaultName(String),
    VaultNotes(String),
    EntryReturnGiftAmount(Option<i64>),
    EntryReturnGift(Option<String>),
    EntryAmount(i64),
    EntryPaymentMethod(String),
    EntryReceivedAt(String),
    EntryNote(Option<String>),
    /// The tags of the entry's person become exactly the named ones.
    EntryPersonTags(Vec<String>),
    EntryPersonName(String),
    EntryPersonAddress(Option<String>),
    BookTitle(String),
    BookOccasion(String),
    BookEventDate(Option<String>),
    BookLocation(Option<String>),
    BookNotes(Option<String>),
}

/// A revert step by its contents.
pub enum RevertPlan {
    PersonTags(Seq<Seq<char>>),
    VaultName(Seq<char>),
    VaultNotes(Seq<char>),
    EntryReturnGiftAmount(Option<int>),
    EntryReturnGift(Option<Seq<char>>),
    EntryAmount(int),
    EntryPaymentMethod(Seq<char>),
    EntryReceivedAt(Seq<char>),
    EntryNote(Option<Seq<char>>),
    EntryPersonTags(Seq<Seq<char>>),
    EntryPersonName(Seq<char>),
    EntryPersonAddress(Option<Seq<char>>),
    BookTitle(Seq<char>),
    BookOccasion(Seq<char>),
    BookEventDate(Option<Seq<char>>),
    BookLocation(Option<Seq<char>>),
    BookNotes(Option<Seq<char>>),
}

pub open spec fn opt_int(o: Option<i64>) -> Option<int> {
    match o {
        Some(v) => Some(v as int),
        None => None,
    }
}

/// The contents of a revert step.
pub open spec fn plan_of(s: RevertStep) -> RevertPlan {
    match s {
        RevertStep::PersonTags(v) => RevertPlan::PersonTags(strings_view(v@)),
        RevertStep::VaultName(t) => RevertPlan::VaultName(t@),
        RevertStep::VaultNotes(t) => RevertPlan::VaultNotes(t@),
        RevertStep::EntryReturnGiftAmount(a) => RevertPlan::EntryReturnGiftAmount(opt_int(a)),
        RevertStep::EntryReturnGift(t) => RevertPlan::EntryReturnGift(opt_view(t)),
        RevertStep::EntryAmount(a) => RevertPlan::EntryAmount(a as int),
        RevertStep::EntryPaymentMethod(t) => RevertPlan::EntryPaymentMethod(t@),
        RevertStep::EntryReceivedAt(t) => RevertPlan::EntryReceivedAt(t@),
        RevertStep::EntryNote(t) => RevertPlan::EntryNote(opt_view(t)),
        RevertStep::EntryPersonTags(v) => RevertPlan::EntryPersonTags(strings_view(v@)),
        RevertStep::EntryPersonName(t) => RevertPlan::EntryPersonName(t@),
        RevertStep::EntryPersonAddress(t) => RevertPlan::EntryPersonAddress(opt_view(t)),
        RevertStep::BookTitle(t) => RevertPlan::BookTitle(t@),
        RevertStep::BookOccasion(t) => RevertPlan::BookOccasion(t@),
        RevertStep::BookEventDate(t) => RevertPlan::BookEventDate(opt_view(t)),
        RevertStep::BookLocation(t) => RevertPlan::BookLocation(opt_view(t)),
        RevertStep::BookNotes(t) => RevertPlan::BookNotes(opt_view(t)),
    }
}

/// The trimmed pieces that are not empty, in order.
pub open spec fn trimmed_names(pieces: Seq<Seq<char>>) -> Seq<Seq<char>>
    decreases pieces.len(),
{
    if pieces.len() == 0 {
        Seq::empty()
    } else {
        let prev = trimmed_names(pieces.drop_last());
        let t = trim(pieces.last());
        if t.len() > 0 {
            prev.push(t)
        } else {
            prev
        }
    }
}

/// The tag names a recorded tag list stands for: none when it says the
/// tags were unset or unfilled or is blank, else its pieces between `、`,
/// trimmed, empty ones left out.
pub open spec fn recorded_tag_names(before: Seq<char>) -> Seq<Seq<char>> {
    if contains_seq(before, "未设置"@) || contains_seq(before, "未填写"@) || trim(before).len() == 0 {
        Seq::empty()
    } else {
        trimmed_names(split_on(before, |c: char| seq!['、'].contains(c)))
    }
}

/// A recorded value, or nothing where the record says it was `marker`.
pub open spec fn unless_marked(before: Seq<char>, marker: Seq<char>) -> Option<Seq<char>> {
    if contains_seq(before, marker) {
        None
    } else {
        Some(before)
    }
}

/// What reverting the change of `field` from `before` writes back on an
/// item of `entity_type`, or the message with which it is refused.
pub open spec fn spec_revert_step(entity_type: Seq<char>, field: Seq<char>, before: Seq<char>) -> Result<RevertPlan, Seq<char>> {
    let entry = entity_type == "gift_entry"@ || entity_type == "return_gift"@;
    let vault = entity_type == "vault"@;
    let book = entity_type == "gift_book"@;
    let has = |needle: Seq<char>| contains_seq(field, needle);
    if entity_type == "person"@ && has("标签"@) {
        Ok(RevertPlan::PersonTags(recorded_tag_names(before)))
    } else if vault && has("名称"@) {
        Ok(RevertPlan::VaultName(before))
    } else if vault && has("备注"@) {
        Ok(RevertPlan::VaultNotes(if contains_seq(before, "未填写"@) { Seq::empty() } else { before }))
    } else if entry && has("回礼金额"@) {
        if contains_seq(before, "未填写"@) {
            Ok(RevertPlan::EntryReturnGiftAmount(None))
        } else {
            match spec_parse_amount_fen(before) {
                Some(a) => Ok(RevertPlan::EntryReturnGiftAmount(Some(a))),
                None => Err("历史回礼金额格式无法恢复"@),
            }
        }
    } else if entry && has("回礼备注"@) {
        Ok(RevertPlan::EntryReturnGift(unless_marked(before, "未填写"@)))
    } else if entry && has("金额"@) {
        match spec_parse_amount_fen(before) {
            Some(a) => Ok(RevertPlan::EntryAmount(a)),
            None => Err("历史礼金金额格式无法恢复"@),
        }
    } else if entry && has("支付方式"@) {
        Ok(RevertPlan::EntryPaymentMethod(before))
    } else if entry && has("登记日期"@) {
        Ok(RevertPlan::EntryReceivedAt(before))
    } else if entry && has("备注"@) {
        Ok(RevertPlan::EntryNote(unless_marked(before, "未填写"@)))
    } else if entry && has("人物标签"@) {
        Ok(RevertPlan::EntryPersonTags(recorded_tag_names(before)))
    } else if entry && has("姓名"@) {
        Ok(RevertPlan::EntryPersonName(before))
    } else if entry && has("地址"@) {
        Ok(RevertPlan::EntryPersonAddress(unless_marked(before, "未填写"@)))
    } else if book && field == "礼金簿名称"@ {
        Ok(RevertPlan::BookTitle(before))
    } else if book && field == "活动类型"@ {
        Ok(RevertPlan::BookOccasion(before))
    } else if book && field == "活动日期"@ {
        Ok(RevertPlan::BookEventDate(unless_marked(before, "未设置"@)))
    } else if book && field == "地点"@ {
        Ok(RevertPlan::BookLocation(unless_marked(before, "未设置"@)))
    } else if book && field == "备注"@ {
        Ok(RevertPlan::BookNotes(unless_marked(before, "未设置"@)))
    } else {
        Err("历史字段“"@ + field + "”没有安全的恢复映射"@)
    }
}

fn has_text(hay: &Vec<char>, needle: &str) -> (r: bool)
    ensures
        r == contains_seq(hay@, needle@),
{
    let n = str_chars(needle);
    contains_chars(hay, &n)
}

/// The tag names a recorded tag list stands for.
pub fn recorded_tags(before: &str) -> (r: Vec<String>)
    ensures
        strings_view(r@) == recorded_tag_names(before@),
{
    let b = str_chars(before);
    let t = trim_chars(&b);
    if has_text(&b, "未设置") || has_text(&b, "未填写") || t.len() == 0 {
        return Vec::new();
    }
    let delims: Vec<char> = vec!['、'];
    assert(delims@ =~= seq!['、']);
    let pieces = split_chars(&b, &delims);
    let ghost pv = char_vecs_view(pieces@);
    assert(pv == split_on(before@, |c: char| seq!['、'].contains(c))) by {
        assert((|c: char| delims@.contains(c)) =~= (|c: char| seq!['、'].contains(c)));
    }
    let mut names: Vec<String> = Vec::new();
    let mut i: usize = 0;
    while i < pieces.len()
        invariant
            i <= pieces@.len(),
            pv == char_vecs_view(pieces@),
            strings_view(names@) == trimmed_names(pv.take(i as int)),
        decreases pieces@.len() - i,
    {
        let piece = trim_chars(&pieces[i]);
        let ghost prev = strings_view(names@);
        proof {
            let t = pv.take(i as int + 1);
            assert(t.drop_last() =~= pv.take(i as int));
            assert(t.last() == pv[i as int]);
        }
        if piece.len() > 0 {
            names.push(string_from_chars(&piece));
            assert(strings_view(names@) =~= prev.push(piece@));
        }
        i = i + 1;
    }
    proof {
        lemma_take_full(pv);
    }
    names
}

fn unless_marked_text(before: &String, b: &Vec<char>, marker: &str) -> (r: Option<String>)
    requires
        b@ == before@,
    ensures
        opt_view(r) == unless_marked(before@, marker@),
{
    if has_text(b, marker) {
        None
    } else {
        Some(before.clone())
    }
}

/// What reverting the change of `field` from `before` writes back on an
/// item of `entity_type`; a field without a safe way back, or an amount that
/// can no longer be read, is refused with the message the user sees.
pub fn revert_step(entity_type: &str, field: &str, before: &String) -> (r: Result<RevertStep, String>)
    ensures
        r matches Ok(s) ==> spec_revert_step(entity_type@, field@, before@) == Ok::<RevertPlan, Seq<char>>(plan_of(s)),
        r matches Err(m) ==> spec_revert_step(entity_type@, field@, before@) == Err::<RevertPlan, Seq<char>>(m@),
{
    let e = str_chars(entity_type);
    let f = str_chars(field);
    let b = str_chars(before.as_str());
    let entry = chars_eq_str(&e, "gift_entry") || chars_eq_str(&e, "return_gift");
    let vault = chars_eq_str(&e, "vault");
    let book = chars_eq_str(&e, "gift_book");
    if chars_eq_str(&e, "person") && has_text(&f, "标签") {
        Ok(RevertStep::PersonTags(recorded_tags(before.as_str())))
    } else if vault && has_text(&f, "名称") {
        Ok(RevertStep::VaultName(before.clone()))
    } else if vault && has_text(&f, "备注") {
        if has_text(&b, "未填写") {
            let empty = String::new();
            assert(empty@ =~= Seq::<char>::empty());
            Ok(RevertStep::VaultNotes(empty))
        } else {
            Ok(RevertStep::VaultNotes(before.clone()))
        }
    } else if entry && has_text(&f, "回礼金额") {
        if has_text(&b, "未填写") {
            Ok(RevertStep::EntryReturnGiftAmount(None))
        } else {
            match parse_amount_fen(before.as_str()) {
                Some(a) => Ok(RevertStep::EntryReturnGiftAmount(Some(a))),
                None => Err(owned("历史回礼金额格式无法恢复")),
            }
        }
    } else if entry && has_text(&f, "回礼备注") {
        Ok(RevertStep::EntryReturnGift(unless_marked_text(before, &b, "未填写")))
    } else if entry && has_text(&f, "金额") {
        match parse_amount_fen(before.as_str()) {
            Some(a) => Ok(RevertStep::EntryAmount(a)),
            None => Err(owned("历史礼金金额格式无法恢复")),
        }
    } else if entry && has_text(&f, "支付方式") {
        Ok(RevertStep::EntryPaymentMethod(before.clone()))
    } else if entry && has_text(&f, "登记日期") {
        Ok(RevertStep::EntryReceivedAt(before.clone()))
    } else if entry && has_text(&f, "备注") {
        Ok(RevertStep::EntryNote(unless_marked_text(before, &b, "未填写")))
    } else if entry && has_text(&f, "人物标签") {
        Ok(RevertStep::EntryPersonTags(recorded_tags(before.as_str())))
    } else if entry && has_text(&f, "姓名") {
        Ok(RevertStep::EntryPersonName(before.clone()))
    } else if entry && has_text(&f, "地址") {
        Ok(RevertStep::EntryPersonAddress(unless_marked_text(before, &b, "未填写")))
    } else if book && chars_eq_str(&f, "礼金簿名称") {
        Ok(RevertStep::BookTitle(before.clone()))
    } else if book && chars_eq_str(&f, "活动类型") {
        Ok(RevertStep::BookOccasion(before.clone()))
    } else if book && chars_eq_str(&f, "活动日期") {
        Ok(RevertStep::BookEventDate(unless_marked_text(before, &b, "未设置")))
    } else if book && chars_eq_str(&f, "地点") {
        Ok(RevertStep::BookLocation(unless_marked_text(before, &b, "未设置")))
    } else if book && chars_eq_str(&f, "备注") {
        Ok(RevertStep::BookNotes(unless_marked_text(before, &b, "未设置")))
    } else {
        Err(concat3("历史字段“", &f, "”没有安全的恢复映射"))
    }
}

/// The steps of reverting the recorded changes one after another, or the
/// message of the first change that is refused.
pub open spec fn plan_all(entity_type: Seq<char>, changes: Seq<(Seq<char>, Seq<char>, Seq<char>)>) -> Result<Seq<RevertPlan>, Seq<char>>
    decreases changes.len(),
{
    if changes.len() == 0 {
        Ok(Seq::empty())
    } else {
        match plan_all(entity_type, changes.drop_last()) {
            Err(m) => Err(m),
            Ok(done) => match spec_revert_step(entity_type, changes.last().0, changes.last().1) {
                Ok(step) => Ok(done.push(step)),
                Err(m) => Err(m),
            },
        }
    }
}

/// Reverting a record is refused when it kept no changes; otherwise it is
/// the steps of its changes in order.
pub open spec fn spec_revert_steps(entity_type: Seq<char>, changes: Seq<(Seq<char>, Seq<char>, Seq<char>)>) -> Result<Seq<RevertPlan>, Seq<char>> {
    if changes.len() == 0 {
        Err("该历史记录没有保存可逆的字段快照，无法恢复"@)
    } else {
        plan_all(entity_type, changes)
    }
}

/// What reverting a history record writes back, change by change; a record
/// without changes, or with a change that cannot be reverted, is refused
/// with the message the user sees.
pub fn revert_steps(entity_type: &str, changes: &[AuditChange]) -> (r: Result<Vec<RevertStep>, String>)
    ensures
        r matches Ok(steps) ==> spec_revert_steps(entity_type@, changes_view(changes@))
            == Ok::<Seq<RevertPlan>, Seq<char>>(steps@.map_values(|s: RevertStep| plan_of(s))),
        r matches Err(m) ==> spec_revert_steps(entity_type@, changes_view(changes@))
            == Err::<Seq<RevertPlan>, Seq<char>>(m@),
{
    if changes.len() == 0 {
        return Err(owned("该历史记录没有保存可逆的字段快照，无法恢复"));
    }
    let ghost cv = changes_view(changes@);
    let mut steps: Vec<RevertStep> = Vec::new();
    let mut i: usize = 0;
    assert(cv.take(0) =~= Seq::<(Seq<char>, Seq<char>, Seq<char>)>::empty());
    assert(steps@.map_values(|s: RevertStep| plan_of(s)) =~= Seq::<RevertPlan>::empty());
    while i < changes.len()
        invariant
            i <= changes@.len(),
            cv == changes_view(changes@),
            plan_all(entity_type@, cv.take(i as int)) == Ok::<Seq<RevertPlan>, Seq<char>>(
                steps@.map_values(|s: RevertStep| plan_of(s)),
            ),
        decreases changes@.len() - i,
    {
        proof {
            let t = cv.take(i as int + 1);
            assert(t.drop_last() =~= cv.take(i as int));
            assert(t.last() == cv[i as int]);
        }
        let step = revert_step(entity_type, changes[i].field.as_str(), &changes[i].before);
        match step {
            Ok(s) => {
                let ghost prev = steps@;
                steps.push(s);
                assert(steps@.map_values(|s: RevertStep| plan_of(s)) =~= prev.map_values(
                    |s: RevertStep| plan_of(s),
                ).push(plan_of(s)));
            },
            Err(m) => {
                proof {
                    lemma_plan_all_stops(entity_type@, cv, i as int + 1);
                }
                return Err(m);
            },
        }
        i = i + 1;
    }
    proof {
        lemma_take_full(cv);
    }
    Ok(steps)
}

/// Once a change is refused, so is every longer run of changes, with the
/// same message.
proof fn lemma_plan_all_stops(entity_type: Seq<char>, cs: Seq<(Seq<char>, Seq<char>, Seq<char>)>, k: int)
    requires
        0 <= k <= cs.len(),
        plan_all(entity_type, cs.take(k)) is Err,
    ensures
        plan_all(entity_type, cs) == plan_all(entity_type, cs.take(k)),
    decreases cs.len() - k,
{
    if k < cs.len() {
        let t = cs.take(k + 1);
        assert(t.drop_last() =~= cs.take(k));
        lemma_plan_all_stops(entity_type, cs, k + 1);
    } else {
        assert(cs.take(k) =~= cs);
    }
}

// ---------------------------------------------------------------------------
// Reverting an edit of a gift entry gives back what it was
// ---------------------------------------------------------------------------

/// The value a gift entry had before an edit, for the field that a
/// recorded change names.
pub open spec fn entry_value_before(label: Seq<char>, b: EntryAuditSnapshot) -> RevertPlan {
    if label == "姓名"@ {
        RevertPlan::EntryPersonName(b.person_name@)
    } else if label == "地址"@ {
        RevertPlan::EntryPersonAddress(opt_view(b.address))
    } else if label == "金额"@ {
        RevertPlan::EntryAmount(b.amount_fen as int)
    } else if label == "支付方式"@ {
        RevertPlan::EntryPaymentMethod(b.payment_method@)
    } else if label == "备注"@ {
        RevertPlan::EntryNote(opt_view(b.note))
    } else if label == "回礼备注"@ {
        RevertPlan::EntryReturnGift(opt_view(b.return_gift))
    } else if label == "回礼金额"@ {
        RevertPlan::EntryReturnGiftAmount(opt_int(b.return_gift_amount_fen))
    } else {
        RevertPlan::EntryPersonTags(recorded_tag_names(tags_text(b.tags@)))
    }
}

/// An optional text that the history can give back as it was: none, or a
/// text that does not itself say `未填写`.
pub open spec fn restorable_text(t: Option<Seq<char>>) -> bool {
    t matches Some(s) ==> !contains_seq(s, "未填写"@)
}

/// No character of `h` is `c`.
pub open spec fn lacks(h: Seq<char>, c: char) -> bool {
    forall|i: int| 0 <= i < h.len() ==> #[trigger] h[i] != c
}

proof fn lemma_short_lacks(h: Seq<char>, c: char)
    requires
        h.len() <= 4,
        h.len() > 0 ==> h[0] != c,
        h.len() > 1 ==> h[1] != c,
        h.len() > 2 ==> h[2] != c,
        h.len() > 3 ==> h[3] != c,
    ensures
        lacks(h, c),
{
}

/// A text without the first character of `n` does not hold `n`.
proof fn lemma_lacks_first(h: Seq<char>, n: Seq<char>)
    requires
        n.len() > 0,
        lacks(h, n[0]),
    ensures
        !contains_seq(h, n),
{
    if contains_seq(h, n) {
        let i = choose|i: int| crate::text::occurs_at(h, n, i);
        assert(h.subrange(i, i + n.len())[0] == h[i]);
    }
}

/// A text holds itself, and no other text of its length.
proof fn lemma_same_length(h: Seq<char>, n: Seq<char>)
    requires
        h.len() == n.len(),
    ensures
        contains_seq(h, n) == (h == n),
{
    assert(h.subrange(0, h.len() as int) =~= h);
    if h == n {
        assert(crate::text::occurs_at(h, n, 0));
    }
}

/// A money amount as the history shows it never says `未填写`.
proof fn lemma_money_text_unmarked(amount: int)
    requires
        amount >= 0,
    ensures
        !contains_seq(money_text(amount), "未填写"@),
{
    reveal_strlit("¥");
    reveal_strlit(".");
    reveal_strlit("00");
    reveal_strlit("0");
    reveal_strlit("未填写");
    let m = amount as nat;
    lemma_decimal_value(m / 100);
    lemma_decimal_value(m % 100);
    let w = whole_yuan_text(amount);
    let c = cents_of_text(amount);
    assert(w =~= crate::text::decimal(m / 100));
    assert(lacks(w, '未')) by {
        assert forall|i: int| 0 <= i < w.len() implies #[trigger] w[i] != '未' by {
            assert(crate::text::is_digit(w[i]));
        }
    }
    assert(lacks(c, '未')) by {
        assert forall|i: int| 0 <= i < c.len() implies #[trigger] c[i] != '未' by {
            if m % 100 != 0 && m % 100 < 10 {
                if i > 0 {
                    assert(crate::text::is_digit(crate::text::decimal(m % 100)[i - 1]));
                }
            } else if m % 100 != 0 {
                assert(crate::text::is_digit(crate::text::decimal(m % 100)[i]));
            }
        }
    }
    let t = money_text(amount);
    assert(lacks(t, '未')) by {
        assert forall|i: int| 0 <= i < t.len() implies #[trigger] t[i] != '未' by {
            if 1 <= i < 1 + w.len() {
                assert(t[i] == w[i - 1]);
            } else if i >= 2 + w.len() {
                assert(t[i] == c[i - 2 - w.len()]);
            }
        }
    }
    lemma_lacks_first(t, "未填写"@);
}

/// The facts about the field labels that decide which way back a recorded
/// change of a gift entry takes.
proof fn lemma_entry_labels()
    ensures
        !contains_seq("姓名"@, "回礼金额"@) && !contains_seq("姓名"@, "回礼备注"@)
            && !contains_seq("姓名"@, "金额"@) && !contains_seq("姓名"@, "支付方式"@)
            && !contains_seq("姓名"@, "登记日期"@) && !contains_seq("姓名"@, "备注"@)
            && !contains_seq("姓名"@, "人物标签"@) && contains_seq("姓名"@, "姓名"@),
        !contains_seq("地址"@, "回礼金额"@) && !contains_seq("地址"@, "回礼备注"@)
            && !contains_seq("地址"@, "金额"@) && !contains_seq("地址"@, "支付方式"@)
            && !contains_seq("地址"@, "登记日期"@) && !contains_seq("地址"@, "备注"@)
            && !contains_seq("地址"@, "人物标签"@) && !contains_seq("地址"@, "姓名"@)
            && contains_seq("地址"@, "地址"@),
        !contains_seq("金额"@, "回礼金额"@) && !contains_seq("金额"@, "回礼备注"@)
            && contains_seq("金额"@, "金额"@),
        !contains_seq("支付方式"@, "回礼金额"@) && !contains_seq("支付方式"@, "回礼备注"@)
            && !contains_seq("支付方式"@, "金额"@) && contains_seq("支付方式"@, "支付方式"@),
        !contains_seq("备注"@, "回礼金额"@) && !contains_seq("备注"@, "回礼备注"@)
            && !contains_seq("备注"@, "金额"@) && !contains_seq("备注"@, "支付方式"@)
            && !contains_seq("备注"@, "登记日期"@) && contains_seq("备注"@, "备注"@),
        !contains_seq("回礼备注"@, "回礼金额"@) && contains_seq("回礼备注"@, "回礼备注"@),
        contains_seq("回礼金额"@, "回礼金额"@),
        !contains_seq("人物标签"@, "回礼金额"@) && !contains_seq("人物标签"@, "回礼备注"@)
            && !contains_seq("人物标签"@, "金额"@) && !contains_seq("人物标签"@, "支付方式"@)
            && !contains_seq("人物标签"@, "登记日期"@) && !contains_seq("人物标签"@, "备注"@)
            && contains_seq("人物标签"@, "人物标签"@),
        contains_seq("未填写"@, "未填写"@),
        "gift_entry"@ != "person"@ && "gift_entry"@ != "vault"@ && "gift_entry"@ != "gift_book"@,
{
    reveal_strlit("姓名");
    reveal_strlit("地址");
    reveal_strlit("金额");
    reveal_strlit("支付方式");
    reveal_strlit("备注");
    reveal_strlit("回礼备注");
    reveal_strlit("回礼金额");
    reveal_strlit("人物标签");
    reveal_strlit("登记日期");
    reveal_strlit("未填写");
    reveal_strlit("gift_entry");
    reveal_strlit("person");
    reveal_strlit("vault");
    reveal_strlit("gift_book");
    lemma_short_lacks("姓名"@, '回');
    lemma_short_lacks("姓名"@, '金');
    lemma_short_lacks("姓名"@, '支');
    lemma_short_lacks("姓名"@, '登');
    lemma_short_lacks("姓名"@, '备');
    lemma_short_lacks("姓名"@, '人');
    lemma_short_lacks("地址"@, '回');
    lemma_short_lacks("地址"@, '金');
    lemma_short_lacks("地址"@, '支');
    lemma_short_lacks("地址"@, '登');
    lemma_short_lacks("地址"@, '备');
    lemma_short_lacks("地址"@, '人');
    lemma_short_lacks("地址"@, '姓');
    lemma_short_lacks("金额"@, '回');
    lemma_short_lacks("支付方式"@, '回');
    lemma_short_lacks("支付方式"@, '金');
    lemma_short_lacks("备注"@, '回');
    lemma_short_lacks("备注"@, '金');
    lemma_short_lacks("备注"@, '支');
    lemma_short_lacks("备注"@, '登');
    lemma_short_lacks("人物标签"@, '回');
    lemma_short_lacks("人物标签"@, '金');
    lemma_short_lacks("人物标签"@, '支');
    lemma_short_lacks("人物标签"@, '登');
    lemma_short_lacks("人物标签"@, '备');
    lemma_lacks_first("姓名"@, "回礼金额"@);
    lemma_lacks_first("姓名"@, "回礼备注"@);
    lemma_lacks_first("姓名"@, "金额"@);
    lemma_lacks_first("姓名"@, "支付方式"@);
    lemma_lacks_first("姓名"@, "登记日期"@);
    lemma_lacks_first("姓名"@, "备注"@);
    lemma_lacks_first("姓名"@, "人物标签"@);
    lemma_lacks_first("地址"@, "回礼金额"@);
    lemma_lacks_first("地址"@, "回礼备注"@);
    lemma_lacks_first("地址"@, "金额"@);
    lemma_lacks_first("地址"@, "支付方式"@);
    lemma_lacks_first("地址"@, "登记日期"@);
    lemma_lacks_first("地址"@, "备注"@);
    lemma_lacks_first("地址"@, "人物标签"@);
    lemma_lacks_first("地址"@, "姓名"@);
    lemma_lacks_first("金额"@, "回礼金额"@);
    lemma_lacks_first("金额"@, "回礼备注"@);
    lemma_lacks_first("支付方式"@, "回礼金额"@);
    lemma_lacks_first("支付方式"@, "回礼备注"@);
    lemma_lacks_first("支付方式"@, "金额"@);
    lemma_lacks_first("备注"@, "回礼金额"@);
    lemma_lacks_first("备注"@, "回礼备注"@);
    lemma_lacks_first("备注"@, "金额"@);
    lemma_lacks_first("备注"@, "支付方式"@);
    lemma_lacks_first("备注"@, "登记日期"@);
    lemma_lacks_first("人物标签"@, "回礼金额"@);
    lemma_lacks_first("人物标签"@, "回礼备注"@);
    lemma_lacks_first("人物标签"@, "金额"@);
    lemma_lacks_first("人物标签"@, "支付方式"@);
    lemma_lacks_first("人物标签"@, "登记日期"@);
    lemma_lacks_first("人物标签"@, "备注"@);
    lemma_same_length("姓名"@, "姓名"@);
    lemma_same_length("地址"@, "地址"@);
    lemma_same_length("金额"@, "金额"@);
    lemma_same_length("支付方式"@, "支付方式"@);
    lemma_same_length("备注"@, "备注"@);
    assert("回礼备注"@[2] != "回礼金额"@[2]);
    lemma_same_length("回礼备注"@, "回礼金额"@);
    lemma_same_length("回礼备注"@, "回礼备注"@);
    lemma_same_length("回礼金额"@, "回礼金额"@);
    lemma_same_length("人物标签"@, "人物标签"@);
    lemma_same_length("未填写"@, "未填写"@);
    assert("gift_entry"@.len() != "person"@.len());
    assert("gift_entry"@.len() != "vault"@.len());
    assert("gift_entry"@.len() != "gift_book"@.len());
}

/// Reverting the recorded change `c` of a gift entry gives back its value in `b`.
pub open spec fn reverts_to(c: (Seq<char>, Seq<char>, Seq<char>), b: EntryAuditSnapshot) -> bool {
    spec_revert_step("gift_entry"@, c.0, c.1) == Ok::<RevertPlan, Seq<char>>(entry_value_before(c.0, b))
}

proof fn lemma_all_revert(x: Seq<(Seq<char>, Seq<char>, Seq<char>)>, y: Seq<(Seq<char>, Seq<char>, Seq<char>)>, b: EntryAuditSnapshot)
    requires
        forall|i: int| 0 <= i < x.len() ==> reverts_to(#[trigger] x[i], b),
        forall|i: int| 0 <= i < y.len() ==> reverts_to(#[trigger] y[i], b),
    ensures
        forall|i: int| 0 <= i < (x + y).len() ==> reverts_to(#[trigger] (x + y)[i], b),
{
    assert forall|i: int| 0 <= i < (x + y).len() implies reverts_to(#[trigger] (x + y)[i], b) by {
        if i < x.len() {
            assert((x + y)[i] == x[i]);
        } else {
            assert((x + y)[i] == y[i - x.len()]);
        }
    }
}

proof fn lemma_one_reverts(changed: bool, label: Seq<char>, before: Seq<char>, after: Seq<char>, b: EntryAuditSnapshot)
    requires
        reverts_to((label, before, after), b),
    ensures
        forall|i: int| 0 <= i < crate::audit::change_if(changed, label, before, after).len()
            ==> reverts_to(#[trigger] crate::audit::change_if(changed, label, before, after)[i], b),
{
}

/// Reverting any change recorded for an edit of a gift entry gives back
/// the value that field had before the edit: the name, address, amount,
/// payment method, note, return-gift note or amount, or the person's tags
/// as the record lists them.
pub proof fn law_revert_undoes_entry_edit(b: EntryAuditSnapshot, a: EntryAuditSnapshot, k: int)
    requires
        0 <= k < spec_entry_audit_changes(b, a).len(),
        b.amount_fen >= 0,
        b.return_gift_amount_fen matches Some(x) ==> x >= 0,
        restorable_text(opt_view(b.address)),
        restorable_text(opt_view(b.note)),
        restorable_text(opt_view(b.return_gift)),
    ensures
        reverts_to(spec_entry_audit_changes(b, a)[k], b),
{
    lemma_entry_labels();
    reveal_strlit("姓名");
    reveal_strlit("地址");
    reveal_strlit("金额");
    reveal_strlit("支付方式");
    reveal_strlit("备注");
    reveal_strlit("回礼备注");
    reveal_strlit("回礼金额");
    reveal_strlit("人物标签");
    lemma_money_text_unmarked(b.amount_fen as int);
    law_money_text_reads_back(b.amount_fen);
    if let Some(x) = b.return_gift_amount_fen {
        lemma_money_text_unmarked(x as int);
        law_money_text_reads_back(x);
    }
    let p1 = crate::audit::change_if(b.person_name@ != a.person_name@, "姓名"@, b.person_name@, a.person_name@);
    let p2 = crate::audit::change_if(
        opt_view(b.address) != opt_view(a.address),
        "地址"@,
        spec_audit_text(opt_view(b.address)),
        spec_audit_text(opt_view(a.address)),
    );
    let p3 = crate::audit::change_if(
        b.amount_fen != a.amount_fen,
        "金额"@,
        money_text(b.amount_fen as int),
        money_text(a.amount_fen as int),
    );
    let p4 = crate::audit::change_if(
        b.payment_method@ != a.payment_method@,
        "支付方式"@,
        b.payment_method@,
        a.payment_method@,
    );
    let p5 = crate::audit::change_if(
        opt_view(b.note) != opt_view(a.note),
        "备注"@,
        spec_audit_text(opt_view(b.note)),
        spec_audit_text(opt_view(a.note)),
    );
    let p6 = crate::audit::change_if(
        opt_view(b.return_gift) != opt_view(a.return_gift),
        "回礼备注"@,
        spec_audit_text(opt_view(b.return_gift)),
        spec_audit_text(opt_view(a.return_gift)),
    );
    let p7 = crate::audit::change_if(
        b.return_gift_amount_fen != a.return_gift_amount_fen,
        "回礼金额"@,
        optional_money_text(b.return_gift_amount_fen),
        optional_money_text(a.return_gift_amount_fen),
    );
    let p8 = crate::audit::change_if(b.tags@ != a.tags@, "人物标签"@, tags_text(b.tags@), tags_text(a.tags@));
    lemma_one_reverts(b.person_name@ != a.person_name@, "姓名"@, b.person_name@, a.person_name@, b);
    lemma_one_reverts(
        opt_view(b.address) != opt_view(a.address),
        "地址"@,
        spec_audit_text(opt_view(b.address)),
        spec_audit_text(opt_view(a.address)),
        b,
    );
    lemma_one_reverts(
        b.amount_fen != a.amount_fen,
        "金额"@,
        money_text(b.amount_fen as int),
        money_text(a.amount_fen as int),
        b,
    );
    lemma_one_reverts(
        b.payment_method@ != a.payment_method@,
        "支付方式"@,
        b.payment_method@,
        a.payment_method@,
        b,
    );
    lemma_one_reverts(
        opt_view(b.note) != opt_view(a.note),
        "备注"@,
        spec_audit_text(opt_view(b.note)),
        spec_audit_text(opt_view(a.note)),
        b,
    );
    lemma_one_reverts(
        opt_view(b.return_gift) != opt_view(a.return_gift),
        "回礼备注"@,
        spec_audit_text(opt_view(b.return_gift)),
        spec_audit_text(opt_view(a.return_gift)),
        b,
    );
    lemma_one_reverts(
        b.return_gift_amount_fen != a.return_gift_amount_fen,
        "回礼金额"@,
        optional_money_text(b.return_gift_amount_fen),
        optional_money_text(a.return_gift_amount_fen),
        b,
    );
    lemma_one_reverts(b.tags@ != a.tags@, "人物标签"@, tags_text(b.tags@), tags_text(a.tags@), b);
    lemma_all_revert(p1, p2, b);
    lemma_all_revert(p1 + p2, p3, b);
    lemma_all_revert(p1 + p2 + p3, p4, b);
    lemma_all_revert(p1 + p2 + p3 + p4, p5, b);
    lemma_all_revert(p1 + p2 + p3 + p4 + p5, p6, b);
    lemma_all_revert(p1 + p2 + p3 + p4 + p5 + p6, p7, b);
    lemma_all_revert(p1 + p2 + p3 + p4 + p5 + p6 + p7, p8, b);
    assert(spec_entry_audit_changes(b, a) == p1 + p2 + p3 + p4 + p5 + p6 + p7 + p8);
}

/// Reverting any change recorded for an edit of a ledger's name and notes
/// gives back the name it had, or its notes as they were (trimmed, empty
/// when there were none).
pub proof fn law_revert_undoes_vault_edit(old_name: Seq<char>, old_notes: Seq<char>, name: Seq<char>, notes: Seq<char>, k: int)
    requires
        0 <= k < crate::records::spec_vault_edit_changes(old_name, old_notes, name, notes).len(),
        !contains_seq(trim(old_notes), "未填写"@),
    ensures
        ({
            let c = crate::records::spec_vault_edit_changes(old_name, old_notes, name, notes)[k];
            spec_revert_step("vault"@, c.0, c.1) == Ok::<RevertPlan, Seq<char>>(
                if c.0 == "礼金库名称"@ {
                    RevertPlan::VaultName(old_name)
                } else {
                    RevertPlan::VaultNotes(trim(old_notes))
                },
            )
        }),
{
    reveal_strlit("礼金库名称");
    reveal_strlit("礼金库备注");
    reveal_strlit("标签");
    reveal_strlit("名称");
    reveal_strlit("备注");
    reveal_strlit("未填写");
    reveal_strlit("vault");
    reveal_strlit("person");
    assert(lacks("礼金库名称"@, '标')) by {
        assert forall|i: int| 0 <= i < "礼金库名称"@.len() implies #[trigger] "礼金库名称"@[i] != '标' by {
            assert(i == 0 || i == 1 || i == 2 || i == 3 || i == 4);
        }
    }
    lemma_lacks_first("礼金库名称"@, "标签"@);
    assert(lacks("礼金库备注"@, '名')) by {
        assert forall|i: int| 0 <= i < "礼金库备注"@.len() implies #[trigger] "礼金库备注"@[i] != '名' by {
            assert(i == 0 || i == 1 || i == 2 || i == 3 || i == 4);
        }
    }
    lemma_lacks_first("礼金库备注"@, "名称"@);
    assert(crate::text::occurs_at("礼金库名称"@, "名称"@, 3)) by {
        assert("礼金库名称"@.subrange(3, 5) =~= "名称"@);
    }
    assert(crate::text::occurs_at("礼金库备注"@, "备注"@, 3)) by {
        assert("礼金库备注"@.subrange(3, 5) =~= "备注"@);
    }
    lemma_same_length("未填写"@, "未填写"@);
    assert("vault"@.len() != "person"@.len());
    assert("礼金库名称"@ != "礼金库备注"@) by {
        assert("礼金库名称"@[3] != "礼金库备注"@[3]);
    }
    let t = trim(old_notes);
    if t.len() == 0 {
        assert(t =~= Seq::<char>::empty());
    }
}

/// The value a gift book had before an edit, for the field that a recorded
/// change names.
pub open spec fn book_value_before(label: Seq<char>, b: crate::models::GiftBook) -> RevertPlan {
    if label == "礼金簿名称"@ {
        RevertPlan::BookTitle(b.title@)
    } else if label == "活动类型"@ {
        RevertPlan::BookOccasion(b.occasion@)
    } else if label == "活动日期"@ {
        RevertPlan::BookEventDate(opt_view(b.event_date))
    } else if label == "地点"@ {
        RevertPlan::BookLocation(opt_view(b.location))
    } else {
        RevertPlan::BookNotes(opt_view(b.notes))
    }
}

/// A book field that the history gives back as it was: one that was set,
/// to a text that does not say `未设置`.
pub open spec fn book_field_restorable(t: Option<Seq<char>>) -> bool {
    t matches Some(s) && !contains_seq(s, "未设置"@)
}

proof fn lemma_book_facts()
    ensures
        "gift_book"@ != "person"@ && "gift_book"@ != "vault"@ && "gift_book"@ != "gift_entry"@
            && "gift_book"@ != "return_gift"@,
        "礼金簿名称"@ != "活动类型"@ && "礼金簿名称"@ != "活动日期"@ && "礼金簿名称"@ != "地点"@
            && "礼金簿名称"@ != "备注"@,
        "活动类型"@ != "活动日期"@ && "活动类型"@ != "地点"@ && "活动类型"@ != "备注"@,
        "活动日期"@ != "地点"@ && "活动日期"@ != "备注"@,
        "地点"@ != "备注"@,
{
    reveal_strlit("gift_book");
    reveal_strlit("person");
    reveal_strlit("vault");
    reveal_strlit("gift_entry");
    reveal_strlit("return_gift");
    reveal_strlit("礼金簿名称");
    reveal_strlit("活动类型");
    reveal_strlit("活动日期");
    reveal_strlit("地点");
    reveal_strlit("备注");
    assert("gift_book"@.len() != "person"@.len());
    assert("gift_book"@.len() != "vault"@.len());
    assert("gift_book"@.len() != "gift_entry"@.len());
    assert("gift_book"@.len() != "return_gift"@.len());
    assert("礼金簿名称"@.len() != "活动类型"@.len());
    assert("礼金簿名称"@.len() != "活动日期"@.len());
    assert("礼金簿名称"@.len() != "地点"@.len());
    assert("礼金簿名称"@.len() != "备注"@.len());
    assert("活动类型"@[2] != "活动日期"@[2]);
    assert("活动类型"@.len() != "地点"@.len());
    assert("活动类型"@.len() != "备注"@.len());
    assert("活动日期"@.len() != "地点"@.len());
    assert("活动日期"@.len() != "备注"@.len());
    assert("地点"@[0] != "备注"@[0]);
}

/// Reverting any change recorded for an edit of a gift book gives back the
/// value that field had before the edit, where the field was set before.
pub proof fn law_revert_undoes_book_edit(existing: crate::models::GiftBook, input: crate::models::EditBookInput, k: int)
    requires
        0 <= k < crate::records::spec_book_edit_changes(existing, input).len(),
        opt_view(existing.event_date) != crate::import::spec_null_if_empty(input.event_date@)
            ==> book_field_restorable(opt_view(existing.event_date)),
        opt_view(existing.location) != crate::import::spec_null_if_empty(input.location@)
            ==> book_field_restorable(opt_view(existing.location)),
        opt_view(existing.notes) != crate::import::spec_null_if_empty(input.notes@)
            ==> book_field_restorable(opt_view(existing.notes)),
    ensures
        ({
            let c = crate::records::spec_book_edit_changes(existing, input)[k];
            spec_revert_step("gift_book"@, c.0, c.1) == Ok::<RevertPlan, Seq<char>>(book_value_before(c.0, existing))
        }),
{
    lemma_book_facts();
    let title = trim(input.title@);
    let occasion = trim(input.occasion@);
    let event_date = crate::import::spec_null_if_empty(input.event_date@);
    let location = crate::import::spec_null_if_empty(input.location@);
    let notes = crate::import::spec_null_if_empty(input.notes@);
    let p1 = crate::audit::change_if(existing.title@ != title, "礼金簿名称"@, existing.title@, title);
    let p2 = crate::audit::change_if(existing.occasion@ != occasion, "活动类型"@, existing.occasion@, occasion);
    let p3 = crate::audit::change_if(
        opt_view(existing.event_date) != event_date,
        "活动日期"@,
        spec_audit_text(opt_view(existing.event_date)),
        spec_audit_text(event_date),
    );
    let p4 = crate::audit::change_if(
        opt_view(existing.location) != location,
        "地点"@,
        spec_audit_text(opt_view(existing.location)),
        spec_audit_text(location),
    );
    let p5 = crate::audit::change_if(
        opt_view(existing.notes) != notes,
        "备注"@,
        spec_audit_text(opt_view(existing.notes)),
        spec_audit_text(notes),
    );
    let all = p1 + p2 + p3 + p4 + p5;
    assert(crate::records::spec_book_edit_changes(existing, input) == all);
    let c = all[k];
    if k < p1.len() {
        assert(c == p1[k]);
    } else if k < p1.len() + p2.len() {
        assert(c == p2[k - p1.len()]);
    } else if k < p1.len() + p2.len() + p3.len() {
        assert(c == p3[k - p1.len() - p2.len()]);
    } else if k < p1.len() + p2.len() + p3.len() + p4.len() {
        assert(c == p4[k - p1.len() - p2.len() - p3.len()]);
    } else {
        assert(c == p5[k - p1.len() - p2.len() - p3.len() - p4.len()]);
    }
}

/// Reverting any change recorded for an edit of a return gift gives back
/// its earlier amount, or its earlier note.
pub proof fn law_revert_undoes_return_gift_edit(previous_amount: i64, previous_note: Option<Seq<char>>, amount: i64, note: Seq<char>, k: int)
    requires
        0 <= k < crate::records::spec_return_gift_changes(previous_amount, previous_note, amount, note).len(),
        previous_amount >= 0,
        restorable_text(previous_note),
    ensures
        ({
            let c = crate::records::spec_return_gift_changes(previous_amount, previous_note, amount, note)[k];
            spec_revert_step("gift_entry"@, c.0, c.1) == Ok::<RevertPlan, Seq<char>>(
                if c.0 == "回礼金额"@ {
                    RevertPlan::EntryReturnGiftAmount(Some(previous_amount as int))
                } else {
                    RevertPlan::EntryReturnGift(previous_note)
                },
            )
        }),
{
    lemma_entry_labels();
    lemma_money_text_unmarked(previous_amount as int);
    law_money_text_reads_back(previous_amount);
    reveal_strlit("回礼金额");
    reveal_strlit("回礼备注");
    assert("回礼备注"@ != "回礼金额"@) by {
        assert("回礼备注"@[2] != "回礼金额"@[2]);
    }
    let p1 = crate::audit::change_if(
        previous_amount != amount,
        "回礼金额"@,
        money_text(previous_amount as int),
        money_text(amount as int),
    );
    let p2 = crate::audit::change_if(
        previous_note != crate::import::spec_null_if_empty(note),
        "回礼备注"@,
        spec_audit_text(previous_note),
        spec_audit_text(crate::import::spec_null_if_empty(note)),
    );
    let all = p1 + p2;
    assert(crate::records::spec_return_gift_changes(previous_amount, previous_note, amount, note) == all);
    if k < p1.len() {
        assert(all[k] == p1[k]);
    } else {
        assert(all[k] == p2[k - p1.len()]);
    }
}

// ---------------------------------------------------------------------------
// Tag lists read back as the names they were written from
// ---------------------------------------------------------------------------

proof fn lemma_split_plain(b: Seq<char>, is_delim: spec_fn(char) -> bool)
    requires
        forall|i: int| 0 <= i < b.len() ==> !is_delim(#[trigger] b[i]),
    ensures
        split_on(b, is_delim) == seq![b],
    decreases b.len(),
{
    if b.len() == 0 {
        assert(b =~= Seq::<char>::empty());
    } else {
        lemma_split_plain(b.drop_last(), is_delim);
        assert(!is_delim(b.last()));
        assert(b.drop_last().push(b.last()) =~= b);
    }
}

proof fn lemma_split_after_delim(a: Seq<char>, d: char, b: Seq<char>, is_delim: spec_fn(char) -> bool)
    requires
        is_delim(d),
        forall|i: int| 0 <= i < b.len() ==> !is_delim(#[trigger] b[i]),
    ensures
        split_on(a + seq![d] + b, is_delim) == split_on(a, is_delim).push(b),
    decreases b.len(),
{
    let s = a + seq![d] + b;
    if b.len() == 0 {
        assert(s.drop_last() =~= a);
        assert(s.last() == d);
        assert(b =~= Seq::<char>::empty());
    } else {
        let b0 = b.drop_last();
        lemma_split_after_delim(a, d, b0, is_delim);
        assert(s.drop_last() =~= a + seq![d] + b0);
        assert(s.last() == b.last());
        assert(!is_delim(b.last()));
        let p = split_on(a, is_delim).push(b0);
        assert(b0.push(b.last()) =~= b);
        assert(p.update(p.len() - 1, b0.push(b.last())) =~= split_on(a, is_delim).push(b));
    }
}

/// Splitting names joined by a delimiter that none of them holds gives
/// back the names.
proof fn lemma_split_join(names: Seq<Seq<char>>, d: char, is_delim: spec_fn(char) -> bool)
    requires
        names.len() > 0,
        is_delim(d),
        forall|k: int, i: int| 0 <= k < names.len() && 0 <= i < names[k].len() ==> !is_delim(#[trigger] names[k][i]),
    ensures
        split_on(crate::text::join(names, seq![d]), is_delim) == names,
    decreases names.len(),
{
    if names.len() == 1 {
        lemma_split_plain(names[0], is_delim);
        assert(seq![names[0]] =~= names);
    } else {
        let init = names.drop_last();
        lemma_split_join(init, d, is_delim);
        assert forall|i: int| 0 <= i < names.last().len() implies !is_delim(#[trigger] names.last()[i]) by {
            assert(names.last() == names[names.len() - 1]);
        }
        lemma_split_after_delim(crate::text::join(init, seq![d]), d, names.last(), is_delim);
        assert(init.push(names.last()) =~= names);
    }
}

/// Names that are non-empty and their own trimmed form pass unchanged.
proof fn lemma_trimmed_names_same(names: Seq<Seq<char>>)
    requires
        forall|k: int| 0 <= k < names.len() ==> #[trigger] trim(names[k]) == names[k] && names[k].len() > 0,
    ensures
        trimmed_names(names) == names,
    decreases names.len(),
{
    if names.len() > 0 {
        lemma_trimmed_names_same(names.drop_last());
        assert(trim(names[names.len() - 1]) == names[names.len() - 1]);
        assert(names.drop_last().push(names.last()) =~= names);
    }
}

/// Joined names begin with the first name.
proof fn lemma_join_starts(names: Seq<Seq<char>>, sep: Seq<char>)
    requires
        names.len() > 0,
    ensures
        names[0].len() <= crate::text::join(names, sep).len(),
        forall|i: int| 0 <= i < names[0].len() ==> #[trigger] crate::text::join(names, sep)[i] == names[0][i],
    decreases names.len(),
{
    if names.len() > 1 {
        let init = names.drop_last();
        lemma_join_starts(init, sep);
        assert(init[0] == names[0]);
        let j = crate::text::join(init, sep);
        assert forall|i: int| 0 <= i < names[0].len() implies #[trigger] crate::text::join(names, sep)[i] == names[0][i] by {
            assert((j + sep + names.last())[i] == j[i]);
        }
    }
}

/// A text with a character that is not whitespace does not trim to nothing.
proof fn lemma_trim_keeps(s: Seq<char>, i: int)
    requires
        0 <= i < s.len(),
        !crate::text::is_ws(s[i]),
    ensures
        trim(s).len() > 0,
{
    crate::text::lemma_trim_bounds(s, crate::text::trim_pred(None));
    let (a, b) = crate::text::trim_bounds(s, crate::text::trim_pred(None));
    if a >= b {
        if i < a {
            assert((crate::text::trim_pred(None))(s[i]));
        } else {
            assert((crate::text::trim_pred(None))(s[i]));
        }
    }
}

/// A tag list written from `names` reads back as `names`.
proof fn lemma_tag_names_read_back(names: Seq<Seq<char>>)
    requires
        names.len() > 0,
        forall|k: int| 0 <= k < names.len() ==> #[trigger] names[k].len() > 0 && trim(names[k]) == names[k]
            && !names[k].contains('、'),
        !contains_seq(crate::text::join(names, "、"@), "未设置"@),
        !contains_seq(crate::text::join(names, "、"@), "未填写"@),
    ensures
        tags_text(crate::text::join(names, "、"@)) == crate::text::join(names, "、"@),
        recorded_tag_names(crate::text::join(names, "、"@)) == names,
{
    reveal_strlit("、");
    let is_delim = |c: char| seq!['、'].contains(c);
    assert("、"@ =~= seq!['、']);
    assert(seq!['、'][0] == '、');
    assert(is_delim('、'));
    let text = crate::text::join(names, "、"@);
    assert forall|k: int, i: int| 0 <= k < names.len() && 0 <= i < names[k].len() implies !is_delim(
        #[trigger] names[k][i],
    ) by {
        if is_delim(names[k][i]) {
            assert(names[k][i] == '、');
            assert(names[k].contains('、'));
        }
    }
    lemma_split_join(names, '、', is_delim);
    lemma_trimmed_names_same(names);
    lemma_join_starts(names, "、"@);
    let first = names[0];
    assert(trim(first) == first && first.len() > 0);
    crate::text::lemma_trim_bounds(first, crate::text::trim_pred(None));
    let (a, b) = crate::text::trim_bounds(first, crate::text::trim_pred(None));
    assert(a < b);
    assert(text[a] == first[a]);
    lemma_trim_keeps(text, a);
}

proof fn lemma_person_tags_step(t: Seq<char>)
    ensures
        spec_revert_step("person"@, "人物标签"@, t) == Ok::<RevertPlan, Seq<char>>(
            RevertPlan::PersonTags(recorded_tag_names(t)),
        ),
{
    reveal_strlit("人物标签");
    reveal_strlit("标签");
    assert(crate::text::occurs_at("人物标签"@, "标签"@, 2)) by {
        assert("人物标签"@.subrange(2, 4) =~= "标签"@);
    }
}

proof fn lemma_entry_tags_step(t: Seq<char>)
    ensures
        spec_revert_step("gift_entry"@, "人物标签"@, t) == Ok::<RevertPlan, Seq<char>>(
            RevertPlan::EntryPersonTags(recorded_tag_names(t)),
        ),
{
    lemma_entry_labels();
}

/// Reverting a change of a person's tags that the history recorded from the
/// names `names` (joined by `、`, as it shows them) gives back exactly those
/// names, in order; for the tags of a person and of a gift entry's person alike.
pub proof fn law_revert_restores_tag_names(names: Seq<Seq<char>>)
    requires
        names.len() > 0,
        forall|k: int| 0 <= k < names.len() ==> #[trigger] names[k].len() > 0 && trim(names[k]) == names[k]
            && !names[k].contains('、'),
        !contains_seq(crate::text::join(names, "、"@), "未设置"@),
        !contains_seq(crate::text::join(names, "、"@), "未填写"@),
    ensures
        recorded_tag_names(tags_text(crate::text::join(names, "、"@))) == names,
        spec_revert_step("person"@, "人物标签"@, tags_text(crate::text::join(names, "、"@)))
            == Ok::<RevertPlan, Seq<char>>(RevertPlan::PersonTags(names)),
        spec_revert_step("gift_entry"@, "人物标签"@, tags_text(crate::text::join(names, "、"@)))
            == Ok::<RevertPlan, Seq<char>>(RevertPlan::EntryPersonTags(names)),
{
    lemma_tag_names_read_back(names);
    let t = tags_text(crate::text::join(names, "、"@));
    lemma_person_tags_step(t);
    lemma_entry_tags_step(t);
}

// ---------------------------------------------------------------------------
// Undoing history records
// ---------------------------------------------------------------------------

/// How a history record is undone.
#[derive(Debug, Clone, Copy, PartialEq, Eq, Structural)]
pub enum HistoryUndo {
    /// A deletion: the item comes back from the bin.
    RestoreDeleted,
    /// A restore: the item goes back to the bin.
    DeleteAgain,
    /// An edit: its recorded changes are reverted.
    RevertChanges,
}

/// How a record of `action` on `entity_type` is undone, or the message
/// with which undoing it is refused.
pub open spec fn spec_history_undo(action: Seq<char>, entity_type: Seq<char>) -> Result<HistoryUndo, Seq<char>> {
    if action == "delete"@ {
        Ok(HistoryUndo::RestoreDeleted)
    } else if action == "restore"@ {
        Ok(HistoryUndo::DeleteAgain)
    } else if action == "update"@ && (entity_type == "gift_entry"@ || entity_type == "return_gift"@
        || entity_type == "person"@ || entity_type == "vault"@ || entity_type == "gift_book"@) {
        Ok(HistoryUndo::RevertChanges)
    } else {
        Err("该历史记录类型没有安全的恢复机制"@)
    }
}

/// How a history record is undone.
pub fn history_undo(action: &str, entity_type: &str) -> (r: Result<HistoryUndo, String>)
    ensures
        r matches Ok(u) ==> spec_history_undo(action@, entity_type@) == Ok::<HistoryUndo, Seq<char>>(u),
        r matches Err(m) ==> spec_history_undo(action@, entity_type@) == Err::<HistoryUndo, Seq<char>>(m@),
{
    let a = str_chars(action);
    let e = str_chars(entity_type);
    if chars_eq_str(&a, "delete") {
        Ok(HistoryUndo::RestoreDeleted)
    } else if chars_eq_str(&a, "restore") {
        Ok(HistoryUndo::DeleteAgain)
    } else if chars_eq_str(&a, "update") && (chars_eq_str(&e, "gift_entry") || chars_eq_str(&e, "return_gift")
        || chars_eq_str(&e, "person") || chars_eq_str(&e, "vault") || chars_eq_str(&e, "gift_book")) {
        Ok(HistoryUndo::RevertChanges)
    } else {
        Err(owned("该历史记录类型没有安全的恢复机制"))
    }
}

/// Whether a batch of history records can be undone: some were selected,
/// and all of them were found.
pub fn undo_batch_check(selected: usize, found: usize) -> (r: Result<(), String>)
    ensures
        selected == 0 ==> (r matches Err(m) && m@ == "请先进入多选并选择要恢复的历史改动"@),
        selected > 0 && found != selected ==> (r matches Err(m) && m@ == "部分历史记录已不存在，未执行恢复"@),
        selected > 0 && found == selected ==> r is Ok,
{
    if selected == 0 {
        Err(owned("请先进入多选并选择要恢复的历史改动"))
    } else if found != selected {
        Err(owned("部分历史记录已不存在，未执行恢复"))
    } else {
        Ok(())
    }
}

} // verus!
