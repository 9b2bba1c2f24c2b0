use vstd::prelude::*;
use vstd::multiset::Multiset;
use crate::domain::{
    only_messages_differ, AppState, Conversation, Message, SendMessageRequest,
};
use crate::seqtools::{lemma_filter_take_step, lemma_multiset_transfer};
use crate::text::{lemma_lex_refl, lemma_lex_total, lemma_lex_trans, lex_leq, str_eq, str_leq};
use vstd::string::StringExecFns;

verus! {

/// The other participant of a message, seen from `me`: the receiver of a
/// message I sent, the sender of a message I received, nothing for a message
/// I am not part of.
pub open spec fn msg_partner(m: Message, me: Seq<char>) -> Option<Seq<char>> {
    if m.sender_id@ == me {
        Some(m.receiver_id@)
    } else if m.receiver_id@ == me {
        Some(m.sender_id@)
    } else {
        None
    }
}

/// The message belongs to the conversation between `me` and `other`.
pub open spec fn touches(m: Message, me: Seq<char>, other: Seq<char>) -> bool {
    msg_partner(m, me) == Some(other)
}

/// The message travels between these two users, in either direction.
pub open spec fn between(m: Message, a: Seq<char>, b: Seq<char>) -> bool {
    (m.sender_id@ == a && m.receiver_id@ == b) || (m.sender_id@ == b && m.receiver_id@ == a)
}

/// A mark-read request from `me` about `other` flips this message: addressed
/// to me, sent by the other, still unread.
pub open spec fn should_flip(m: Message, me: Seq<char>, other: Seq<char>) -> bool {
    m.receiver_id@ == me && m.sender_id@ == other && !m.is_read
}

/// A message after being marked read.
pub open spec fn read_marked(m: Message) -> Message {
    Message { is_read: true, ..m }
}

/// The messages of the conversation between `me` and `other`, in storage
/// order.
pub open spec fn conv_msgs(ms: Seq<Message>, me: Seq<char>, other: Seq<char>) -> Seq<Message> {
    ms.filter(|m: Message| touches(m, me, other))
}

/// The messages addressed to `me` and still unread.
pub open spec fn unread_msgs(ms: Seq<Message>, me: Seq<char>) -> Seq<Message> {
    ms.filter(|m: Message| m.receiver_id@ == me && !m.is_read)
}

/// The number of unread messages the conversation between `me` and `other`
/// holds for `me`.
pub open spec fn unread_count_spec(ms: Seq<Message>, me: Seq<char>, other: Seq<char>) -> int {
    unread_msgs(conv_msgs(ms, me, other), me).len() as int
}

/// A faithful conversation summary for `me`: the partner's id, the composite
/// conversation id, the unread tally, and a latest message whose timestamp
/// stamps the whole entry.
pub open spec fn conv_ok(ms: Seq<Message>, me: Seq<char>, c: Conversation) -> bool {
    let group = conv_msgs(ms, me, c.other_user_id@);
    &&& c.id@ == me + "_"@ + c.other_user_id@
    &&& c.other_user_name is None
    &&& group.len() > 0
    &&& c.unread_count == unread_count_spec(ms, me, c.other_user_id@)
    &&& (c.last_message matches Some(lm) && group.contains(lm) && (forall|k: int|
        0 <= k < group.len() ==> lex_leq((#[trigger] group[k]).timestamp@, lm.timestamp@))
        && c.updated_at@ == lm.timestamp@)
}

/// Sorted by the latest-message timestamp, most recent conversation first.
pub open spec fn sorted_by_updated_desc(s: Seq<Conversation>) -> bool {
    forall|i: int, j: int|
        #![trigger s[i], s[j]]
        0 <= i < j < s.len() ==> lex_leq(s[j].updated_at@, s[i].updated_at@)
}

/// Some stored message links `me` with this partner.
pub open spec fn partner_sound(messages: Seq<Message>, me: Seq<char>, p: Seq<char>) -> bool {
    exists|i: int| 0 <= i < messages.len() && msg_partner(#[trigger] messages[i], me) == Some(p)
}

/// The name list holds this partner.
pub open spec fn partner_listed(partners: Seq<String>, p: Seq<char>) -> bool {
    exists|k: int| 0 <= k < partners.len() && (#[trigger] partners[k])@ == p
}

/// How one step of a scan extends a conversation's message group.
proof fn lemma_conv_take_step(ms: Seq<Message>, me: Seq<char>, other: Seq<char>, i: int)
    requires
        0 <= i < ms.len(),
    ensures
        touches(ms[i], me, other) ==> conv_msgs(ms.take(i + 1), me, other) == conv_msgs(
            ms.take(i),
            me,
            other,
        ).push(ms[i]),
        !touches(ms[i], me, other) ==> conv_msgs(ms.take(i + 1), me, other) == conv_msgs(
            ms.take(i),
            me,
            other,
        ),
{
    reveal(Seq::filter);
    assert(ms.take(i + 1) =~= ms.take(i).push(ms[i]));
    assert(ms.take(i).push(ms[i]).drop_last() =~= ms.take(i));
    assert(ms.take(i).push(ms[i]).last() == ms[i]);
}

/// How one more message changes the unread tally's underlying list.
proof fn lemma_unread_push(g: Seq<Message>, me: Seq<char>, m: Message)
    ensures
        (m.receiver_id@ == me && !m.is_read) ==> unread_msgs(g.push(m), me) == unread_msgs(
            g,
            me,
        ).push(m),
        !(m.receiver_id@ == me && !m.is_read) ==> unread_msgs(g.push(m), me) == unread_msgs(g, me),
{
    reveal(Seq::filter);
    assert(g.push(m).drop_last() =~= g);
    assert(g.push(m).last() == m);
}

/// How one step of a scan extends the set of flipped messages.
proof fn lemma_flip_take_step(ms: Seq<Message>, me: Seq<char>, other: Seq<char>, i: int)
    requires
        0 <= i < ms.len(),
    ensures
        should_flip(ms[i], me, other) ==> ms.take(i + 1).filter(
            |m: Message| should_flip(m, me, other),
        ) == ms.take(i).filter(|m: Message| should_flip(m, me, other)).push(ms[i]),
        !should_flip(ms[i], me, other) ==> ms.take(i + 1).filter(
            |m: Message| should_flip(m, me, other),
        ) == ms.take(i).filter(|m: Message| should_flip(m, me, other)),
{
    reveal(Seq::filter);
    assert(ms.take(i + 1) =~= ms.take(i).push(ms[i]));
    assert(ms.take(i).push(ms[i]).drop_last() =~= ms.take(i));
    assert(ms.take(i).push(ms[i]).last() == ms[i]);
}

/// Whether the list already holds this name.
fn contains_name(v: &Vec<String>, s: &str) -> (r: bool)
    ensures
        r == (exists|k: int| 0 <= k < v@.len() && (#[trigger] v@[k])@ == s@),
{
    let n = v.len();
    let mut i: usize = 0;
    while i < n
        invariant
            n == v@.len(),
            i <= n,
            forall|k: int| 0 <= k < i ==> (#[trigger] v@[k])@ != s@,
        decreases n - i,
    {
        if str_eq(v[i].as_str(), s) {
            proof {
                assert(v@[i as int]@ == s@);
            }
            return true;
        }
        i = i + 1;
    }
    false
}

/// The distinct conversation partners of `me`, in order of first appearance.
fn partner_list(messages: &Vec<Message>, me: &str) -> (r: Vec<String>)
    ensures
        forall|k1: int, k2: int|
            #![trigger r@[k1], r@[k2]]
            0 <= k1 < k2 < r@.len() ==> r@[k1]@ != r@[k2]@,
        forall|k: int| 0 <= k < r@.len() ==> partner_sound(messages@, me@, (#[trigger] r@[k])@),
        forall|i: int|
            0 <= i < messages@.len() ==> (match msg_partner(#[trigger] messages@[i], me@) {
                Option::Some(p) => partner_listed(r@, p),
                Option::None => true,
            }),
{
    let n = messages.len();
    let mut partners: Vec<String> = Vec::new();
    let mut i: usize = 0;
    while i < n
        invariant
            n == messages@.len(),
            i <= n,
            forall|k1: int, k2: int|
                #![trigger partners@[k1], partners@[k2]]
                0 <= k1 < k2 < partners@.len() ==> partners@[k1]@ != partners@[k2]@,
            forall|k: int|
                0 <= k < partners@.len() ==> partner_sound(
                    messages@,
                    me@,
                    (#[trigger] partners@[k])@,
                ),
            forall|ii: int|
                0 <= ii < i ==> (match msg_partner(#[trigger] messages@[ii], me@) {
                    Option::Some(p) => partner_listed(partners@, p),
                    Option::None => true,
                }),
        decreases n - i,
    {
        let p_opt: Option<String> = if str_eq(messages[i].sender_id.as_str(), me) {
            Some(messages[i].receiver_id.clone())
        } else if str_eq(messages[i].receiver_id.as_str(), me) {
            Some(messages[i].sender_id.clone())
        } else {
            None
        };
        match p_opt {
            Some(p) => {
                proof {
                    assert(msg_partner(messages@[i as int], me@) == Some(p@));
                }
                if !contains_name(&partners, p.as_str()) {
                    let ghost old_partners = partners@;
                    let ghost pv = p@;
                    partners.push(p);
                    proof {
                        assert(forall|k: int|
                            0 <= k < old_partners.len() ==> partners@[k] == old_partners[k]);
                        assert(partners@[old_partners.len() as int]@ == pv);
                        assert(partner_sound(messages@, me@, pv));
                        assert forall|k: int| 0 <= k < partners@.len() implies partner_sound(
                            messages@,
                            me@,
                            (#[trigger] partners@[k])@,
                        ) by {
                            if k < old_partners.len() {
                                assert(partner_sound(messages@, me@, old_partners[k]@));
                            }
                        }
                        assert forall|ii: int| 0 <= ii < i + 1 implies (match msg_partner(
                            #[trigger] messages@[ii],
                            me@,
                        ) {
                            Option::Some(q) => partner_listed(partners@, q),
                            Option::None => true,
                        }) by {
                            if ii < i {
                                match msg_partner(messages@[ii], me@) {
                                    Option::Some(q) => {
                                        assert(partner_listed(old_partners, q));
                                        let kq = choose|kq: int|
                                            0 <= kq < old_partners.len() && (#[trigger] old_partners[kq])@
                                                == q;
                                        assert(partners@[kq]@ == q);
                                    },
                                    Option::None => {},
                                }
                            } else {
                                assert(partners@[old_partners.len() as int]@ == pv);
                            }
                        }
                    }
                } else {
                    proof {
                        assert(partner_listed(partners@, p@));
                    }
                }
            },
            None => {},
        }
        i = i + 1;
    }
    partners
}

/// Builds the conversation summary between `me` and `other` from the full
/// message store.  There must be at least one message between the two.
fn build_conversation(messages: &Vec<Message>, me: &str, other: &str) -> (r: Conversation)
    requires
        exists|i: int|
            0 <= i < messages@.len() && touches(#[trigger] messages@[i], me@, other@),
        messages@.len() < 0x8000_0000,
    ensures
        conv_ok(messages@, me@, r),
        r.other_user_id@ == other@,
{
    let n = messages.len();
    let mut best: Option<Message> = None;
    let mut count: i32 = 0;
    let mut i: usize = 0;
    while i < n
        invariant
            n == messages@.len(),
            n < 0x8000_0000,
            i <= n,
            0 <= count <= i,
            unread_msgs(conv_msgs(messages@.take(i as int), me@, other@), me@).len() == count,
            (match best {
                Option::None => conv_msgs(messages@.take(i as int), me@, other@).len() == 0,
                Option::Some(bm) => conv_msgs(messages@.take(i as int), me@, other@).contains(bm)
                    && (forall|k: int|
                    0 <= k < conv_msgs(messages@.take(i as int), me@, other@).len() ==> lex_leq(
                        (#[trigger] conv_msgs(messages@.take(i as int), me@, other@)[k]).timestamp@,
                        bm.timestamp@,
                    )),
            }),
        decreases n - i,
    {
        let ghost gt = conv_msgs(messages@.take(i as int), me@, other@);
        let ghost m_spec = messages@[i as int];
        proof {
            lemma_conv_take_step(messages@, me@, other@, i as int);
        }
        let touch = if str_eq(messages[i].sender_id.as_str(), me) {
            str_eq(messages[i].receiver_id.as_str(), other)
        } else if str_eq(messages[i].receiver_id.as_str(), me) {
            str_eq(messages[i].sender_id.as_str(), other)
        } else {
            false
        };
        proof {
            assert(touch == touches(m_spec, me@, other@));
        }
        if touch {
            let ghost gtn = conv_msgs(messages@.take(i as int + 1), me@, other@);
            proof {
                assert(gtn == gt.push(m_spec));
                assert(forall|k: int| 0 <= k < gt.len() ==> gtn[k] == gt[k]);
                assert(gtn[gt.len() as int] == m_spec);
                lemma_unread_push(gt, me@, m_spec);
            }
            if str_eq(messages[i].receiver_id.as_str(), me) && !messages[i].is_read {
                count = count + 1;
            }
            let replace = match &best {
                None => true,
                Some(b) => !str_leq(messages[i].timestamp.as_str(), b.timestamp.as_str()),
            };
            if replace {
                proof {
                    lemma_lex_refl(m_spec.timestamp@);
                    match best {
                        Option::None => {},
                        Option::Some(bm) => {
                            lemma_lex_total(m_spec.timestamp@, bm.timestamp@);
                            assert forall|k: int| 0 <= k < gtn.len() implies lex_leq(
                                (#[trigger] gtn[k]).timestamp@,
                                m_spec.timestamp@,
                            ) by {
                                if k < gt.len() {
                                    lemma_lex_trans(
                                        gtn[k].timestamp@,
                                        bm.timestamp@,
                                        m_spec.timestamp@,
                                    );
                                }
                            }
                        },
                    }
                    assert(gtn.contains(m_spec));
                }
                best = Some(messages[i].duplicate());
            } else {
                proof {
                    let bm = best.unwrap();
                    let k0 = choose|k0: int| 0 <= k0 < gt.len() && gt[k0] == bm;
                    assert(gtn[k0] == bm);
                    assert(gtn.contains(bm));
                }
            }
        }
        i = i + 1;
    }
    proof {
        assert(messages@.take(n as int) =~= messages@);
        let wi = choose|wi: int|
            0 <= wi < messages@.len() && touches(#[trigger] messages@[wi], me@, other@);
        messages@.lemma_filter_contains(|m: Message| touches(m, me@, other@), wi);
        assert(conv_msgs(messages@, me@, other@).contains(messages@[wi]));
    }
    let bm = match best {
        Some(bm) => bm,
        None => vstd::pervasive::unreached(),
    };
    let mut id = me.to_owned();
    id.append("_");
    id.append(other);
    let updated_at = bm.timestamp.clone();
    Conversation {
        id,
        other_user_id: other.to_owned(),
        other_user_name: None,
        last_message: Some(bm),
        unread_count: count,
        updated_at,
    }
}

/// Index of a conversation with maximal latest-message timestamp; among
/// equals, the earliest index.
fn max_updated_index(v: &Vec<Conversation>) -> (r: usize)
    requires
        v@.len() > 0,
    ensures
        r < v@.len(),
        forall|j: int|
            0 <= j < v@.len() ==> lex_leq(
                (#[trigger] v@[j]).updated_at@,
                v@[r as int].updated_at@,
            ),
{
    let n = v.len();
    let mut best: usize = 0;
    let mut k: usize = 1;
    proof {
        lemma_lex_refl(v@[0].updated_at@);
    }
    while k < n
        invariant
            n == v@.len(),
            best < k <= n,
            forall|j: int|
                0 <= j < k ==> lex_leq((#[trigger] v@[j]).updated_at@, v@[best as int].updated_at@),
        decreases n - k,
    {
        proof {
            lemma_lex_refl(v@[k as int].updated_at@);
        }
        if !str_leq(v[k].updated_at.as_str(), v[best].updated_at.as_str()) {
            proof {
                lemma_lex_total(v@[k as int].updated_at@, v@[best as int].updated_at@);
                assert forall|j: int| 0 <= j < k implies lex_leq(
                    (#[trigger] v@[j]).updated_at@,
                    v@[k as int].updated_at@,
                ) by {
                    lemma_lex_trans(
                        v@[j].updated_at@,
                        v@[best as int].updated_at@,
                        v@[k as int].updated_at@,
                    );
                }
            }
            best = k;
        }
        k = k + 1;
    }
    best
}

/// Sorts conversations by their latest-message timestamp, most recent first;
/// the collection's contents are unchanged.
fn sort_convs(input: Vec<Conversation>) -> (r: Vec<Conversation>)
    ensures
        r@.to_multiset() == input@.to_multiset(),
        r@.len() == input@.len(),
        sorted_by_updated_desc(r@),
{
    let ghost input0 = input@;
    let mut src = input;
    let mut out: Vec<Conversation> = Vec::new();
    proof {
        broadcast use vstd::multiset::group_multiset_axioms;

        vstd::seq_lib::to_multiset_len(out@);
        assert(out@.to_multiset().add(src@.to_multiset()) =~= input0.to_multiset());
    }
    while src.len() > 0
        invariant
            out@.to_multiset().add(src@.to_multiset()) == input0.to_multiset(),
            out@.len() + src@.len() == input0.len(),
            sorted_by_updated_desc(out@),
            forall|a: int, b: int|
                #![trigger out@[a], src@[b]]
                0 <= a < out@.len() && 0 <= b < src@.len() ==> lex_leq(
                    src@[b].updated_at@,
                    out@[a].updated_at@,
                ),
        decreases src.len(),
    {
        let ghost src0 = src@;
        let ghost out0 = out@;
        let best = max_updated_index(&src);
        let m = src.remove(best);
        proof {
            broadcast use vstd::multiset::group_multiset_axioms;

            vstd::seq_lib::to_multiset_contains(src0, m);
            vstd::seq_lib::to_multiset_remove(src0, best as int);
            vstd::seq_lib::to_multiset_build(out0, m);
            assert(src0.contains(src0[best as int]));
            assert(src0.to_multiset().count(m) >= 1);
            lemma_multiset_transfer(out0.to_multiset(), src0.to_multiset(), m);
        }
        out.push(m);
        proof {
            assert forall|a: int, b: int|
                #![trigger out@[a], src@[b]]
                0 <= a < out@.len() && 0 <= b < src@.len() implies lex_leq(
                src@[b].updated_at@,
                out@[a].updated_at@,
            ) by {
                if b < best {
                    assert(src@[b] == src0[b]);
                } else {
                    assert(src@[b] == src0[b + 1]);
                }
                if a < out0.len() {
                    assert(out@[a] == out0[a]);
                } else {
                    assert(out@[a] == m);
                }
            }
            assert forall|i: int, j: int|
                #![trigger out@[i], out@[j]]
                0 <= i < j < out@.len() implies lex_leq(out@[j].updated_at@, out@[i].updated_at@) by {
                if j < out0.len() {
                    assert(out@[i] == out0[i] && out@[j] == out0[j]);
                } else {
                    assert(out@[j] == m);
                    assert(out@[i] == out0[i]);
                    assert(src0.contains(m));
                }
            }
        }
    }
    proof {
        broadcast use vstd::multiset::group_multiset_axioms;

        vstd::seq_lib::to_multiset_len(src@);
        assert(src@.to_multiset() =~= Multiset::<Conversation>::empty());
        assert(out@.to_multiset().add(Multiset::<Conversation>::empty()) =~= out@.to_multiset());
    }
    out
}

/// A permutation of conversation summaries keeps their partners pairwise
/// distinct.
proof fn lemma_permutation_keeps_distinct_partners(a: Seq<Conversation>, b: Seq<Conversation>)
    requires
        a.to_multiset() == b.to_multiset(),
        forall|k1: int, k2: int|
            #![trigger a[k1], a[k2]]
            0 <= k1 < k2 < a.len() ==> a[k1].other_user_id@ != a[k2].other_user_id@,
    ensures
        forall|k1: int, k2: int|
            #![trigger b[k1], b[k2]]
            0 <= k1 < k2 < b.len() ==> b[k1].other_user_id@ != b[k2].other_user_id@,
{
    broadcast use vstd::multiset::group_multiset_axioms;

    assert forall|i: int, j: int|
        0 <= i < a.len() && 0 <= j < a.len() && i != j implies a[i] != a[j] by {
        if i < j {
            assert(a[i].other_user_id@ != a[j].other_user_id@);
        } else {
            assert(a[j].other_user_id@ != a[i].other_user_id@);
        }
    }
    a.lemma_multiset_has_no_duplicates();
    assert forall|x: Conversation| b.to_multiset().contains(x) implies b.to_multiset().count(x)
        == 1 by {
        assert(a.to_multiset().count(x) == b.to_multiset().count(x));
    }
    b.lemma_multiset_has_no_duplicates_conv();
    assert forall|k1: int, k2: int|
        #![trigger b[k1], b[k2]]
        0 <= k1 < k2 < b.len() implies b[k1].other_user_id@ != b[k2].other_user_id@ by {
        assert(b[k1] != b[k2]);
        assert(b.contains(b[k1]));
        assert(b.contains(b[k2]));
        vstd::seq_lib::to_multiset_contains(b, b[k1]);
        vstd::seq_lib::to_multiset_contains(b, b[k2]);
        vstd::seq_lib::to_multiset_contains(a, b[k1]);
        vstd::seq_lib::to_multiset_contains(a, b[k2]);
        assert(a.contains(b[k1]));
        assert(a.contains(b[k2]));
        let j1 = choose|j1: int| 0 <= j1 < a.len() && a[j1] == b[k1];
        let j2 = choose|j2: int| 0 <= j2 < a.len() && a[j2] == b[k2];
        assert(j1 != j2);
        if j1 < j2 {
            assert(a[j1].other_user_id@ != a[j2].other_user_id@);
        } else {
            assert(a[j2].other_user_id@ != a[j1].other_user_id@);
        }
    }
}

impl AppState {
    /// Stores a fresh direct message with the next id, unread, and returns
    /// it.
    pub fn send_message(&mut self, req: &SendMessageRequest, timestamp: &str) -> (r: Message)
        requires
            old(self).wf(),
            old(self).next_message_id < i32::MAX,
        ensures
            final(self).wf(),
            only_messages_differ(*old(self), *final(self)),
            final(self).next_message_id == old(self).next_message_id + 1,
            final(self).messages@ == old(self).messages@.push(r),
            r.id == old(self).next_message_id,
            r.sender_id@ == req.sender_id@,
            r.receiver_id@ == req.receiver_id@,
            r.content == req.content,
            r.timestamp@ == timestamp@,
            !r.is_read,
    {
        let id = self.next_message_id;
        self.next_message_id = id + 1;
        let message = Message {
            id,
            sender_id: req.sender_id.clone(),
            receiver_id: req.receiver_id.clone(),
            content: req.content.duplicate(),
            timestamp: timestamp.to_owned(),
            is_read: false,
        };
        let r = message.duplicate();
        self.messages.push(message);
        r
    }

    /// Every message between these two users, in either direction, in
    /// storage order.
    pub fn get_messages(&self, current_user: &str, other_user: &str) -> (r: Vec<Message>)
        ensures
            r@ == self.messages@.filter(|m: Message| between(m, current_user@, other_user@)),
    {
        let n = self.messages.len();
        let mut out: Vec<Message> = Vec::new();
        let mut i: usize = 0;
        proof {
            assert(self.messages@.take(0).filter(
                |m: Message| between(m, current_user@, other_user@),
            ) =~= Seq::<Message>::empty());
        }
        while i < n
            invariant
                n == self.messages@.len(),
                i <= n,
                out@ == self.messages@.take(i as int).filter(
                    |m: Message| between(m, current_user@, other_user@),
                ),
            decreases n - i,
        {
            proof {
                lemma_filter_take_step(
                    self.messages@,
                    |m: Message| between(m, current_user@, other_user@),
                    i as int,
                );
            }
            let m = &self.messages[i];
            let hit = (str_eq(m.sender_id.as_str(), current_user) && str_eq(
                m.receiver_id.as_str(),
                other_user,
            )) || (str_eq(m.sender_id.as_str(), other_user) && str_eq(
                m.receiver_id.as_str(),
                current_user,
            ));
            if hit {
                out.push(self.messages[i].duplicate());
            }
            i = i + 1;
        }
        proof {
            assert(self.messages@.take(n as int) =~= self.messages@);
        }
        out
    }

    /// Marks read every unread message from `other_user` to `current_user`
    /// and reports how many were flipped; no other message changes.
    pub fn mark_messages_read(&mut self, current_user: &str, other_user: &str) -> (r: i32)
        requires
            old(self).wf(),
        ensures
            final(self).wf(),
            only_messages_differ(*old(self), *final(self)),
            final(self).next_message_id == old(self).next_message_id,
            final(self).messages@.len() == old(self).messages@.len(),
            forall|i: int|
                0 <= i < old(self).messages@.len() ==> final(self).messages@[i] == (
                if should_flip(old(self).messages@[i], current_user@, other_user@) {
                    read_marked(old(self).messages@[i])
                } else {
                    old(self).messages@[i]
                }),
            r == old(self).messages@.filter(
                (|m: Message| should_flip(m, current_user@, other_user@)),
            ).len(),
    {
        let n = self.messages.len();
        let mut count: i32 = 0;
        let mut i: usize = 0;
        proof {
            assert(old(self).messages@.take(0).filter(
                |m: Message| should_flip(m, current_user@, other_user@),
            ) =~= Seq::<Message>::empty());
        }
        while i < n
            invariant
                n == old(self).messages@.len(),
                n < 0x8000_0000,
                i <= n,
                0 <= count <= i,
                self.memes == old(self).memes,
                self.next_id == old(self).next_id,
                self.users == old(self).users,
                self.comments == old(self).comments,
                self.next_comment_id == old(self).next_comment_id,
                self.follows == old(self).follows,
                self.next_message_id == old(self).next_message_id,
                self.messages@.len() == n,
                old(self).messages@.take(i as int).filter(
                    (|m: Message| should_flip(m, current_user@, other_user@)),
                ).len() == count,
                forall|j: int|
                    0 <= j < i ==> self.messages@[j] == (
                    if should_flip(old(self).messages@[j], current_user@, other_user@) {
                        read_marked(old(self).messages@[j])
                    } else {
                        old(self).messages@[j]
                    }),
                forall|j: int| i <= j < n ==> self.messages@[j] == old(self).messages@[j],
            decreases n - i,
        {
            proof {
                lemma_flip_take_step(old(self).messages@, current_user@, other_user@, i as int);
            }
            let flip = str_eq(self.messages[i].receiver_id.as_str(), current_user) && str_eq(
                self.messages[i].sender_id.as_str(),
                other_user,
            ) && !self.messages[i].is_read;
            if flip {
                let id = self.messages[i].id;
                let sender_id = self.messages[i].sender_id.clone();
                let receiver_id = self.messages[i].receiver_id.clone();
                let content = self.messages[i].content.duplicate();
                let timestamp = self.messages[i].timestamp.clone();
                self.messages[i] = Message {
                    id,
                    sender_id,
                    receiver_id,
                    content,
                    timestamp,
                    is_read: true,
                };
                count = count + 1;
            }
            i = i + 1;
        }
        proof {
            assert(old(self).messages@.take(n as int) =~= old(self).messages@);
        }
        count
    }

    /// The conversation overview for a user: one faithful summary per
    /// conversation partner (see `conv_ok`), covering every partner, ordered
    /// by the latest message, most recent first.
    #[verifier::rlimit(50)]
    pub fn get_conversations(&self, user_id: &str) -> (r: Vec<Conversation>)
        requires
            self.wf(),
        ensures
            forall|k: int|
                0 <= k < r@.len() ==> conv_ok(self.messages@, user_id@, #[trigger] r@[k]),
            forall|k1: int, k2: int|
                #![trigger r@[k1], r@[k2]]
                0 <= k1 < k2 < r@.len() ==> r@[k1].other_user_id@ != r@[k2].other_user_id@,
            forall|i: int|
                0 <= i < self.messages@.len() ==> (match msg_partner(
                    #[trigger] self.messages@[i],
                    user_id@,
                ) {
                    Option::Some(p) => exists|k: int|
                        0 <= k < r@.len() && (#[trigger] r@[k]).other_user_id@ == p,
                    Option::None => true,
                }),
            sorted_by_updated_desc(r@),

    {
        let partners = partner_list(&self.messages, user_id);
        let np = partners.len();
        let mut convs: Vec<Conversation> = Vec::new();
        let mut j: usize = 0;
        while j < np
            invariant
                np == partners@.len(),
                j <= np,
                convs@.len() == j,
                self.wf(),
                forall|k1: int, k2: int|
                    #![trigger partners@[k1], partners@[k2]]
                    0 <= k1 < k2 < partners@.len() ==> partners@[k1]@ != partners@[k2]@,
                forall|k: int|
                    0 <= k < partners@.len() ==> partner_sound(
                        self.messages@,
                        user_id@,
                        (#[trigger] partners@[k])@,
                    ),
                forall|k: int|
                    0 <= k < j ==> conv_ok(self.messages@, user_id@, #[trigger] convs@[k])
                        && convs@[k].other_user_id@ == partners@[k]@,
            decreases np - j,
        {
            proof {
                assert(partner_sound(self.messages@, user_id@, partners@[j as int]@));
                let wi = choose|wi: int|
                    0 <= wi < self.messages@.len() && msg_partner(
                        #[trigger] self.messages@[wi],
                        user_id@,
                    ) == Some(partners@[j as int]@);
                assert(touches(self.messages@[wi], user_id@, partners@[j as int]@));
            }
            let c = build_conversation(&self.messages, user_id, partners[j].as_str());
            convs.push(c);
            j = j + 1;
        }
        let ghost convs0 = convs@;
        let sorted = sort_convs(convs);
        proof {
            lemma_permutation_keeps_distinct_partners(convs0, sorted@);
            assert forall|k: int| 0 <= k < sorted@.len() implies conv_ok(
                self.messages@,
                user_id@,
                #[trigger] sorted@[k],
            ) by {
                assert(sorted@.contains(sorted@[k]));
                vstd::seq_lib::to_multiset_contains(sorted@, sorted@[k]);
                vstd::seq_lib::to_multiset_contains(convs0, sorted@[k]);
                assert(convs0.contains(sorted@[k]));
                let jx = choose|jx: int| 0 <= jx < convs0.len() && convs0[jx] == sorted@[k];
                assert(conv_ok(self.messages@, user_id@, convs0[jx]));
            }
            assert forall|i: int| 0 <= i < self.messages@.len() implies (match msg_partner(
                #[trigger] self.messages@[i],
                user_id@,
            ) {
                Option::Some(p) => exists|k: int|
                    0 <= k < sorted@.len() && (#[trigger] sorted@[k]).other_user_id@ == p,
                Option::None => true,
            }) by {
                match msg_partner(self.messages@[i], user_id@) {
                    Option::Some(p) => {
                        assert(partner_listed(partners@, p));
                        let kp = choose|kp: int|
                            0 <= kp < partners@.len() && (#[trigger] partners@[kp])@ == p;
                        assert(convs0[kp].other_user_id@ == p);
                        assert(convs0.contains(convs0[kp]));
                        vstd::seq_lib::to_multiset_contains(convs0, convs0[kp]);
                        vstd::seq_lib::to_multiset_contains(sorted@, convs0[kp]);
                        assert(sorted@.contains(convs0[kp]));
                        let ks = choose|ks: int|
                            0 <= ks < sorted@.len() && sorted@[ks] == convs0[kp];
                        assert(sorted@[ks].other_user_id@ == p);
                    },
                    Option::None => {},
                }
            }
        }
        sorted
    }
}

} // verus!
