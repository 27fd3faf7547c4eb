use vstd::prelude::*;
use crate::model::{copy_feedback, feedback_views, Feedback, FeedbackView, UserPersona};
use crate::rank::{lemma_str_lt_asymmetric, lemma_str_lt_transitive, str_less, str_lt, take};
use crate::text::{append, chars_of, trim_text, trimmed};
use vstd::string::StrSliceExecFns;

verus! {

/// How many feedback entries, the most recent first, inform a persona refresh.
pub const PERSONA_FEEDBACK_WINDOW: usize = 20;

/// Whether a feedback event that brought the count of judged articles to
/// `feedback_count` should trigger a persona refresh: every third event.
pub fn should_refresh_persona(feedback_count: i64) -> (r: bool)
    ensures
        r == (feedback_count > 0 && feedback_count % 3 == 0),
{
    feedback_count > 0 && feedback_count % 3 == 0
}

/// No entry was given later than one before it.
pub open spec fn newest_first(s: Seq<FeedbackView>) -> bool {
    forall|i: int, j: int| 0 <= i < j < s.len() ==> !str_lt(s[i].created_at, s[j].created_at)
}

/// The most recent feedback entries, newest first, at most twenty of them.
pub fn recent_feedback(all: &Vec<Feedback>) -> (r: Vec<Feedback>)
    ensures
        exists|ordered: Seq<FeedbackView>|
            {
                &&& newest_first(ordered)
                &&& ordered.to_multiset() == feedback_views(all@).to_multiset()
                &&& feedback_views(r@) == take(ordered, PERSONA_FEEDBACK_WINDOW as int)
            },
{
    let mut out: Vec<Feedback> = Vec::new();
    let mut i: usize = 0;
    proof {
        assert(feedback_views(out@) =~= Seq::<FeedbackView>::empty());
        assert(feedback_views(all@).subrange(0, 0) =~= Seq::<FeedbackView>::empty());
    }
    while i < all.len()
        invariant
            i <= all@.len(),
            newest_first(feedback_views(out@)),
            feedback_views(out@).to_multiset() == feedback_views(all@).subrange(0, i as int).to_multiset(),
        decreases all@.len() - i,
    {
        let f = &all[i];
        let date = chars_of(f.created_at.as_str());
        let mut p: usize = 0;
        while p < out.len()
            invariant
                p <= out@.len(),
                date@ == f@.created_at,
                forall|k: int| 0 <= k < p ==> !str_lt(#[trigger] out@[k]@.created_at, f@.created_at),
            ensures
                p <= out@.len(),
                forall|k: int| 0 <= k < p ==> !str_lt(#[trigger] out@[k]@.created_at, f@.created_at),
                p < out@.len() ==> str_lt(out@[p as int]@.created_at, f@.created_at),
            decreases out@.len() - p,
        {
            if str_less(&chars_of(out[p].created_at.as_str()), &date) {
                break;
            }
            p += 1;
        }
        let ghost old_views = feedback_views(out@);
        let ghost old_out = out@;
        proof {
            assert forall|k: int| p <= k < old_views.len() implies !str_lt(
                f@.created_at,
                old_views[k].created_at,
            ) by {
                assert(old_views[p as int] == old_out[p as int]@);
                if k > p {
                    assert(!str_lt(old_views[p as int].created_at, old_views[k].created_at));
                }
                lemma_str_lt_asymmetric(old_views[p as int].created_at, f@.created_at);
                if str_lt(f@.created_at, old_views[k].created_at) {
                    lemma_str_lt_transitive(
                        old_views[p as int].created_at,
                        f@.created_at,
                        old_views[k].created_at,
                    );
                }
            }
        }
        out.insert(p, copy_feedback(f));
        proof {
            let nv = feedback_views(out@);
            assert(nv =~= old_views.insert(p as int, f@));
            vstd::seq_lib::to_multiset_insert(old_views, p as int, f@);
            assert(feedback_views(all@).subrange(0, i + 1) =~= feedback_views(all@).subrange(
                0,
                i as int,
            ).push(f@));
            vstd::seq_lib::to_multiset_build(feedback_views(all@).subrange(0, i as int), f@);
            assert forall|x: int, y: int| 0 <= x < y < nv.len() implies !str_lt(
                nv[x].created_at,
                nv[y].created_at,
            ) by {
                if y < p {
                    assert(nv[x] == old_views[x] && nv[y] == old_views[y]);
                } else if y == p {
                    assert(nv[x] == old_views[x]);
                    assert(old_views[x] == old_out[x]@);
                } else if x == p {
                    assert(nv[y] == old_views[y - 1]);
                } else if x < p {
                    assert(nv[x] == old_views[x]);
                    assert(nv[y] == old_views[y - 1]);
                } else {
                    assert(nv[x] == old_views[x - 1]);
                    assert(nv[y] == old_views[y - 1]);
                }
            }
        }
        i += 1;
    }
    proof {
        assert(feedback_views(all@).subrange(0, i as int) =~= feedback_views(all@));
    }
    let ghost ordered = feedback_views(out@);
    if out.len() > PERSONA_FEEDBACK_WINDOW {
        out.truncate(PERSONA_FEEDBACK_WINDOW);
        proof {
            assert(feedback_views(out@) =~= ordered.subrange(0, PERSONA_FEEDBACK_WINDOW as int));
        }
    }
    out
}

/// The persona after a refresh attempt: the reply's text, trimmed, with the
/// time of the refresh where the attempt produced one, else the persona
/// unchanged.
pub fn next_persona(current: &UserPersona, reply: Option<String>, now: String) -> (r: UserPersona)
    ensures
        match reply {
            Some(text) => r.description@ == trimmed(text@) && r.last_updated@ == now@,
            None => r.description@ == current.description@ && r.last_updated@
                == current.last_updated@,
        },
{
    match reply {
        Some(text) => UserPersona { description: trim_text(text.as_str()), last_updated: now },
        None => UserPersona {
            description: current.description.clone(),
            last_updated: current.last_updated.clone(),
        },
    }
}

pub open spec fn persona_intro() -> Seq<char> {
    "You are an expert user analyst. Update the User Persona based on the recent feedback provided.\n\n"@
}

pub open spec fn persona_task() -> Seq<char> {
    "\nTask: Analyze the feedback patterns to refine the User Persona.\nINSTRUCTIONS:\n1. Identify specific keywords or topics the user explicitly LIKES (Helpful=true).\n2. Identify topics the user DISLIKES (Helpful=false).\n3. Update the description to be specific (e.g., 'User prefers Rust async and Tauri architecture, but dislikes general finance news').\n4. Output ONLY the concise description text (2-3 sentences)."@
}

pub open spec fn bool_text(b: bool) -> Seq<char> {
    if b {
        "true"@
    } else {
        "false"@
    }
}

/// One line per feedback entry: whether it was helpful, and why.
pub open spec fn feedback_lines(s: Seq<FeedbackView>) -> Seq<char>
    decreases s.len(),
{
    if s.len() == 0 {
        seq![]
    } else {
        feedback_lines(s.drop_last()) + "- Helpful: "@ + bool_text(s.last().is_helpful) + ", Reason: "@
            + s.last().reason + "\n"@
    }
}

/// The request for a new persona: the current description, if any, the
/// given feedback entries, and the instructions.
pub open spec fn persona_prompt_text(recent: Seq<FeedbackView>, description: Seq<char>) -> Seq<char> {
    persona_intro() + (if description.len() == 0 {
        seq![]
    } else {
        "CURRENT PERSONA:\n"@ + description + "\n\n"@
    }) + "RECENT FEEDBACK:\n"@ + feedback_lines(recent) + persona_task()
}

/// Builds the request for a persona refresh from the given feedback entries
/// and the current persona.
pub fn persona_prompt(recent: &Vec<Feedback>, persona: &UserPersona) -> (r: String)
    ensures
        r@ == persona_prompt_text(feedback_views(recent@), persona.description@),
{
    let mut prompt = String::new();
    append(&mut prompt, "You are an expert user analyst. Update the User Persona based on the recent feedback provided.\n\n");
    proof {
        assert(prompt@ =~= persona_intro());
    }
    if persona.description.unicode_len() > 0 {
        append(&mut prompt, "CURRENT PERSONA:\n");
        append(&mut prompt, persona.description.as_str());
        append(&mut prompt, "\n\n");
    }
    append(&mut prompt, "RECENT FEEDBACK:\n");
    let ghost head = prompt@;
    let mut i: usize = 0;
    while i < recent.len()
        invariant
            i <= recent@.len(),
            prompt@ == head + feedback_lines(feedback_views(recent@).subrange(0, i as int)),
        decreases recent@.len() - i,
    {
        let f = &recent[i];
        append(&mut prompt, "- Helpful: ");
        if f.is_helpful {
            append(&mut prompt, "true");
        } else {
            append(&mut prompt, "false");
        }
        append(&mut prompt, ", Reason: ");
        append(&mut prompt, f.reason.as_str());
        append(&mut prompt, "\n");
        proof {
            let sub = feedback_views(recent@).subrange(0, i + 1);
            assert(sub.drop_last() =~= feedback_views(recent@).subrange(0, i as int));
            assert(sub.last() == f@);
        }
        i += 1;
    }
    proof {
        assert(feedback_views(recent@).subrange(0, i as int) =~= feedback_views(recent@));
    }
    append(&mut prompt, "\nTask: Analyze the feedback patterns to refine the User Persona.\nINSTRUCTIONS:\n1. Identify specific keywords or topics the user explicitly LIKES (Helpful=true).\n2. Identify topics the user DISLIKES (Helpful=false).\n3. Update the description to be specific (e.g., 'User prefers Rust async and Tauri architecture, but dislikes general finance news').\n4. Output ONLY the concise description text (2-3 sentences).");
    prompt
}

} // verus!
