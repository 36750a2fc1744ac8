//! Plain data carried between the booking front ends and the engine.

use vstd::prelude::*;

verus! {

/// A client of the shop. The id is `None` until the record is first saved.
pub struct Cliente {
    pub id: Option<i32>,
    pub nome: String,
    pub telefone: String,
    pub email: Option<String>,
}

impl Cliente {
    /// A fresh, not-yet-saved client record.
    pub fn new(nome: String, telefone: String, email: Option<String>) -> (c: Cliente)
        ensures
            c.id is None,
            c.nome == nome,
            c.telefone == telefone,
            c.email == email,
    {
        Cliente { id: None, nome, telefone, email }
    }
}

/// The operator account shown by the terminal front end.
pub struct UsuarioSistema {
    pub id: i32,
    pub nome: String,
    pub licenca_ativa: bool,
    pub codigo_licenca: String,
}

/// Uniform envelope the HTTP front end wraps every answer in.
pub struct ApiResponse<T> {
    pub success: bool,
    pub message: String,
    pub data: Option<T>,
}

/// Search parameters accepted by the service listing endpoint.
pub struct ServicosQuery {
    pub search: Option<String>,
    pub limit: Option<i32>,
}

/// Payload that creates one configured work window.
pub struct NewWorkWindow {
    pub weekday: i32,
    pub start_time: String,
    pub end_time: String,
}

/// An availability request as it arrives from a caller: the date is
/// mandatory, the three minute parameters are optional.
pub struct AvailabilityQuery {
    pub date: String,
    pub duracao_min: Option<i64>,
    pub buffer_min: Option<i64>,
    pub granularity_min: Option<i64>,
}

impl AvailabilityQuery {
    /// The requested duration, defaulting to 30 minutes.
    pub fn duracao(&self) -> (d: i64)
        ensures
            d == if self.duracao_min is Some { self.duracao_min->0 } else { 30i64 },
    {
        match self.duracao_min {
            Some(d) => d,
            None => 30,
        }
    }

    /// The requested buffer, defaulting to 15 minutes.
    pub fn buffer(&self) -> (b: i64)
        ensures
            b == if self.buffer_min is Some { self.buffer_min->0 } else { 15i64 },
    {
        match self.buffer_min {
            Some(b) => b,
            None => 15,
        }
    }

    /// The requested granularity, defaulting to 15 minutes.
    pub fn granularity(&self) -> (g: i64)
        ensures
            g == if self.granularity_min is Some { self.granularity_min->0 } else { 15i64 },
    {
        match self.granularity_min {
            Some(g) => g,
            None => 15,
        }
    }
}

} // verus!
