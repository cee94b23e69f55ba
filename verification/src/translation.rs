//! Translation review records: entries, review decisions and the
//! strategy and context types of the review workflow.

use vstd::prelude::*;

use crate::clock::now_unix;
use crate::strutil::{append_decimal, append_str, spec_decimal, string_push_char};

verus! {

/// The translator behind a text.
#[derive(Debug, Clone, Copy, PartialEq, Eq, Structural)]
pub enum TranslatorType {
    /// Google Cloud Translation.
    Gcp,
    /// ezTrans.
    EzTrans,
    /// An OpenAI model.
    OpenAi,
    /// A human translator.
    Human,
}

impl TranslatorType {
    /// A human-readable name.
    pub fn display_name(&self) -> (r: &'static str)
        ensures
            *self is Gcp ==> r@ == "Google Cloud Translation"@,
            *self is EzTrans ==> r@ == "ezTrans"@,
            *self is OpenAi ==> r@ == "OpenAI"@,
            *self is Human ==> r@ == "Human"@,
    {
        match self {
            TranslatorType::Gcp => "Google Cloud Translation",
            TranslatorType::EzTrans => "ezTrans",
            TranslatorType::OpenAi => "OpenAI",
            TranslatorType::Human => "Human",
        }
    }
}

/// Review state of one translation entry.
#[derive(Debug, Clone, Copy, PartialEq, Eq, Structural)]
pub enum ReviewStatus {
    /// Waiting for review.
    Pending,
    /// Approved.
    Approved,
    /// Needs revision.
    NeedsRevision,
    /// Rejected.
    Rejected,
}

impl ReviewStatus {
    /// A human-readable name.
    pub fn display_name(&self) -> (r: &'static str)
        ensures
            *self is Pending ==> r@ == "Pending"@,
            *self is Approved ==> r@ == "Approved"@,
            *self is NeedsRevision ==> r@ == "Needs Revision"@,
            *self is Rejected ==> r@ == "Rejected"@,
    {
        match self {
            ReviewStatus::Pending => "Pending",
            ReviewStatus::Approved => "Approved",
            ReviewStatus::NeedsRevision => "Needs Revision",
            ReviewStatus::Rejected => "Rejected",
        }
    }
}

/// One translated text under review.  Timestamps are Unix seconds.
#[derive(Debug)]
pub struct TranslationEntry {
    /// Entry id, derived from the dialogue id and the creation time.
    pub id: String,
    /// The dialogue the translation belongs to.
    pub dialogue_id: String,
    /// The original text.
    pub original_text: String,
    /// The translated text.
    pub translated_text: String,
    /// The translator behind it.
    pub translator: TranslatorType,
    /// The review state.
    pub status: ReviewStatus,
    /// Creation time.
    pub created_at: i64,
    /// Last update time.
    pub updated_at: i64,
    /// Who reviewed it, when reviewed.
    pub reviewed_by: Option<String>,
    /// Notes left during review.
    pub notes: Option<String>,
}

impl TranslationEntry {
    /// A fresh pending entry, stamped with the current time; its id joins
    /// the dialogue id and that timestamp.
    pub fn new(
        dialogue_id: String,
        original_text: String,
        translated_text: String,
        translator: TranslatorType,
    ) -> (r: Self)
        ensures
            r.dialogue_id == dialogue_id,
            r.original_text == original_text,
            r.translated_text == translated_text,
            r.translator == translator,
            r.status is Pending,
            r.reviewed_by is None,
            r.notes is None,
            r.created_at == r.updated_at,
    {
        let now = now_unix();
        let mut id = String::from_str("trans_");
        append_str(&mut id, dialogue_id.as_str());
        string_push_char(&mut id, '_');
        if now >= 0 {
            append_decimal_i64(&mut id, now);
        } else {
            string_push_char(&mut id, '-');
            append_decimal_i64(&mut id, -(now + 1));
        }
        TranslationEntry {
            id,
            dialogue_id,
            original_text,
            translated_text,
            translator,
            status: ReviewStatus::Pending,
            created_at: now,
            updated_at: now,
            reviewed_by: None,
            notes: None,
        }
    }

    /// Approve the entry.
    pub fn approve(&mut self, reviewer: &str)
        ensures
            final(self).status is Approved,
            final(self).reviewed_by matches Some(v) && v@ == reviewer@,
            final(self).translated_text == old(self).translated_text,
            final(self).notes == old(self).notes,
    {
        self.status = ReviewStatus::Approved;
        self.reviewed_by = Some(String::from_str(reviewer));
        self.updated_at = now_unix();
    }

    /// Reject the entry with a reason.
    pub fn reject(&mut self, reviewer: &str, reason: &str)
        ensures
            final(self).status is Rejected,
            final(self).reviewed_by matches Some(v) && v@ == reviewer@,
            final(self).notes matches Some(nt) && nt@ == reason@,
            final(self).translated_text == old(self).translated_text,
    {
        self.status = ReviewStatus::Rejected;
        self.reviewed_by = Some(String::from_str(reviewer));
        self.notes = Some(String::from_str(reason));
        self.updated_at = now_unix();
    }

    /// Send the entry back for revision with notes.
    pub fn needs_revision(&mut self, reviewer: &str, notes: &str)
        ensures
            final(self).status is NeedsRevision,
            final(self).reviewed_by matches Some(v) && v@ == reviewer@,
            final(self).notes matches Some(nt) && nt@ == notes@,
            final(self).translated_text == old(self).translated_text,
    {
        self.status = ReviewStatus::NeedsRevision;
        self.reviewed_by = Some(String::from_str(reviewer));
        self.notes = Some(String::from_str(notes));
        self.updated_at = now_unix();
    }

    /// Replace the translated text.
    pub fn update_translation(&mut self, new_text: String)
        ensures
            final(self).translated_text == new_text,
            final(self).status == old(self).status,
            final(self).reviewed_by == old(self).reviewed_by,
    {
        self.translated_text = new_text;
        self.updated_at = now_unix();
    }
}

/// Append the decimal representation of a non-negative i64.
fn append_decimal_i64(out: &mut String, n: i64)
    requires
        n >= 0,
    ensures
        final(out)@ == old(out)@ + spec_decimal(n as nat),
    decreases n,
{
    if n < 10 {
        let d = (n % 10) as usize;
        let mut tmp = String::new();
        append_decimal(&mut tmp, d);
        append_str(out, tmp.as_str());
        assert(final(out)@ =~= old(out)@ + spec_decimal(n as nat));
    } else {
        append_decimal_i64(out, n / 10);
        let d = (n % 10) as usize;
        let mut tmp = String::new();
        append_decimal(&mut tmp, d);
        append_str(out, tmp.as_str());
        assert(final(out)@ =~= old(out)@ + spec_decimal(n as nat));
    }
}

/// How translations are made.
#[derive(Debug)]
pub enum TranslationStrategy {
    /// Machine translation only.
    MachineOnly,
    /// Model translation only.
    AiOnly,
    /// A mix of both.
    Hybrid {
        /// Run machine translation first.
        machine_first: bool,
        /// Have a model review the result.
        ai_review: bool,
    },
}

impl Default for TranslationStrategy {
    /// Machine first, without model review.
    fn default() -> (r: Self)
        ensures
            r matches TranslationStrategy::Hybrid { machine_first, ai_review } && machine_first
                && !ai_review,
    {
        TranslationStrategy::Hybrid { machine_first: true, ai_review: false }
    }
}

/// A character sketch handed to translators.
#[derive(Debug)]
pub struct Character {
    /// The character's name.
    pub name: String,
    /// A short description.
    pub description: Option<String>,
    /// Speech mannerisms.
    pub speech_style: Option<String>,
}

/// Story background handed to translators.
#[derive(Debug)]
pub struct StoryContext {
    /// A summary of the story.
    pub summary: String,
    /// The cast.
    pub characters: Vec<Character>,
    /// The current chapter, when known.
    pub current_chapter: Option<String>,
}

/// The kind of place a map stands for.
#[derive(Debug, Clone, Copy, PartialEq, Eq, Structural)]
pub enum LocationType {
    /// A town.
    Town,
    /// A dungeon.
    Dungeon,
    /// Open field.
    Field,
    /// Indoors.
    Indoor,
    /// Anything else.
    Other,
}

impl LocationType {
    /// A human-readable name.
    pub fn display_name(&self) -> (r: &'static str)
        ensures
            *self is Town ==> r@ == "Town"@,
            *self is Dungeon ==> r@ == "Dungeon"@,
            *self is Field ==> r@ == "Field"@,
            *self is Indoor ==> r@ == "Indoor"@,
            *self is Other ==> r@ == "Other"@,
    {
        match self {
            LocationType::Town => "Town",
            LocationType::Dungeon => "Dungeon",
            LocationType::Field => "Field",
            LocationType::Indoor => "Indoor",
            LocationType::Other => "Other",
        }
    }
}

/// Map background handed to translators.
#[derive(Debug)]
pub struct MapContext {
    /// The map's name.
    pub map_name: String,
    /// The kind of place.
    pub location_type: LocationType,
    /// The mood of the place.
    pub atmosphere: Option<String>,
}

/// One translation request.
#[derive(Debug)]
pub struct TranslationRequest {
    /// The text to translate.
    pub text: String,
    /// The source language.
    pub source_language: String,
    /// The target language.
    pub target_language: String,
    /// Optional context.
    pub context: Option<String>,
}

} // verus!
