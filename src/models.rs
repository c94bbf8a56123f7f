//! Records exchanged with the store and with clients.
use vstd::prelude::*;

verus! {

/// What a client sends to register a talent.
pub struct CreateTalentRequest {
    pub name: String,
    pub email: String,
    pub handle: String,
    pub avatar: Option<String>,
    pub title: String,
    pub location: Option<String>,
    pub experience: String,
    /// Comma-separated skills.
    pub skills: String,
    pub bio: Option<String>,
    pub verified: bool,
}

/// A partial update of a talent: absent fields stay as they are.
pub struct UpdateTalentRequest {
    pub name: Option<String>,
    pub email: Option<String>,
    pub handle: Option<String>,
    pub avatar: Option<String>,
    pub title: Option<String>,
    pub location: Option<String>,
    pub experience: Option<String>,
    pub skills: Option<String>,
    pub bio: Option<String>,
    pub verified: Option<bool>,
}

/// One platform's view of a talent in a social media analysis.
pub struct PlatformProfile {
    pub platform: String,
    pub handle: Option<String>,
    pub url: Option<String>,
    pub verified: bool,
    pub bio: Option<String>,
    pub tldr: Option<String>,
    pub highlights: Vec<String>,
    pub skills: Vec<String>,
    pub experience_signals: Vec<String>,
    pub red_flags: Vec<String>,
    pub recruiter_notes: Vec<String>,
}

/// The combined social media analysis of one talent.
pub struct SocialMediaAnalysis {
    pub talent_id: String,
    pub x_handle: Option<String>,
    pub tldr: Option<String>,
    pub profiles: Vec<PlatformProfile>,
    pub combined_skills: Vec<String>,
    pub summary: Option<String>,
}

/// A client error: a message and the status code it is reported with.
pub struct ApiError {
    pub message: String,
    pub code: u16,
}

/// A request to delete several records at once.
pub struct BulkDeleteRequest {
    pub ids: Vec<String>,
}

/// How many of the requested records were deleted.
pub struct BulkDeleteResponse {
    pub deleted_count: u64,
    pub total_requested: usize,
}

/// A job opening.
pub struct Job {
    pub id: String,
    pub title: String,
    pub description: String,
    pub company_name: String,
    pub company_logo: Option<String>,
    pub location: Option<String>,
    /// remote, onsite or hybrid
    pub location_type: String,
    /// full-time, part-time or contract
    pub employment_type: String,
    pub salary_min: Option<i64>,
    pub salary_max: Option<i64>,
    pub salary_currency: Option<String>,
    /// Comma-separated skills.
    pub skills_required: String,
    /// entry, mid, senior or lead
    pub experience_level: String,
    /// active, closed or draft
    pub status: String,
    pub created_at: String,
    pub expires_at: Option<String>,
}

/// What a client sends to open a job.
pub struct CreateJobRequest {
    pub title: String,
    pub description: String,
    pub company_name: String,
    pub company_logo: Option<String>,
    pub location: Option<String>,
    pub location_type: String,
    pub employment_type: String,
    pub salary_min: Option<i64>,
    pub salary_max: Option<i64>,
    pub salary_currency: Option<String>,
    pub skills_required: String,
    pub experience_level: String,
    pub expires_at: Option<String>,
}

/// A partial update of a job.
pub struct UpdateJobRequest {
    pub title: Option<String>,
    pub description: Option<String>,
    pub company_name: Option<String>,
    pub company_logo: Option<String>,
    pub location: Option<String>,
    pub location_type: Option<String>,
    pub employment_type: Option<String>,
    pub salary_min: Option<i64>,
    pub salary_max: Option<i64>,
    pub salary_currency: Option<String>,
    pub skills_required: Option<String>,
    pub experience_level: Option<String>,
    pub status: Option<String>,
    pub expires_at: Option<String>,
}

/// A talent's application to a job.
pub struct Application {
    pub id: String,
    pub talent_id: String,
    pub job_id: String,
    /// The resume, base64-encoded.
    pub resume_data: Option<String>,
    pub resume_filename: Option<String>,
    pub resume_content_type: Option<String>,
    pub cover_letter: Option<String>,
    /// pending, reviewed, accepted or rejected
    pub status: String,
    pub created_at: String,
}

/// What a client sends to apply to a job.
pub struct CreateApplicationRequest {
    pub talent_id: String,
    pub job_id: String,
    pub resume_data: Option<String>,
    pub resume_filename: Option<String>,
    pub resume_content_type: Option<String>,
    pub cover_letter: Option<String>,
}

/// An application as clients see it: the resume itself is left out.
pub struct ApplicationResponse {
    pub id: String,
    pub talent_id: String,
    pub job_id: String,
    pub has_resume: bool,
    pub resume_filename: Option<String>,
    pub cover_letter: Option<String>,
    pub status: String,
    pub created_at: String,
}

/// A request to rank candidates for a job.
pub struct RankCandidatesRequest {
    pub job_id: String,
    /// The candidates to rank; all of them when absent.
    pub talent_ids: Option<Vec<String>>,
    pub use_feedback: bool,
}

/// One recorded reordering of a job's candidate list, kept for provenance.
pub struct ReorderEvent {
    pub id: String,
    pub job_id: String,
    /// The ordering before the move, as a JSON array of talent ids.
    pub before_order: String,
    /// The ordering after the move, as a JSON array of talent ids.
    pub after_order: String,
    pub moved_talent_id: Option<String>,
    pub event_timestamp: String,
    pub created_at: String,
}

/// What a client sends when a recruiter reorders a job's candidates.
pub struct CreateReorderEventRequest {
    pub job_id: String,
    pub before_order: Vec<String>,
    pub after_order: Vec<String>,
    pub moved_talent_id: Option<String>,
}

/// A judgment that one candidate is preferred over another for a job.
/// Every judgment derived from a manual reorder has full confidence.
pub struct PairwisePreference {
    pub id: String,
    pub winner_id: String,
    pub loser_id: String,
    pub job_id: String,
    pub job_text: String,
    pub winner_text: String,
    pub loser_text: String,
    pub source: String,
    pub reorder_event_id: Option<String>,
    pub created_at: String,
}

/// The answer to a reorder: the stored event and how many judgments were new.
pub struct ReorderResponse {
    pub event_id: String,
    pub preferences_created: i32,
    pub message: String,
}

/// Builds the client's view of an application.
pub fn application_response(application: Application) -> (r: ApplicationResponse)
    ensures
        r.id == application.id,
        r.talent_id == application.talent_id,
        r.job_id == application.job_id,
        r.has_resume == application.resume_data.is_some(),
        r.resume_filename == application.resume_filename,
        r.cover_letter == application.cover_letter,
        r.status == application.status,
        r.created_at == application.created_at,
{
    let has_resume = application.resume_data.is_some();
    ApplicationResponse {
        id: application.id,
        talent_id: application.talent_id,
        job_id: application.job_id,
        has_resume,
        resume_filename: application.resume_filename,
        cover_letter: application.cover_letter,
        status: application.status,
        created_at: application.created_at,
    }
}

} // verus!
