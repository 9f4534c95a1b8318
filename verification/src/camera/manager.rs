//! The registry of cameras, keyed by camera identifier.

use crate::camera::client::CameraClient;
use crate::config::{camera_index, camera_index_from, lemma_camera_index_from, CameraConfig};
use crate::text::{from_chars, push_str, same_text, texts, to_chars};
use vstd::prelude::*;

verus! {

/// The cameras that the gateway serves, in the order in which they were added.
pub struct CameraManager {
    cameras: Vec<CameraClient>,
}

/// A camera that the registry does not hold.
#[derive(Debug, Clone)]
pub struct UnknownCamera {
    pub camera_id: String,
}

impl UnknownCamera {
    /// The error as a sentence.
    pub fn message(&self) -> (r: String)
        ensures
            r@ == "Camera "@ + self.camera_id@ + " not found"@,
    {
        let mut out: Vec<char> = Vec::new();
        push_str(&mut out, "Camera ");
        push_str(&mut out, self.camera_id.as_str());
        push_str(&mut out, " not found");
        from_chars(&out)
    }
}

/// The configurations of a list of clients.
pub open spec fn configurations(clients: Seq<CameraClient>) -> Seq<CameraConfig> {
    Seq::new(clients.len(), |i: int| clients[i].configuration())
}

/// The identifiers of a list of configurations.
pub open spec fn identifiers(configs: Seq<CameraConfig>) -> Seq<Seq<char>> {
    Seq::new(configs.len(), |i: int| configs[i].id@)
}

/// No two configurations share an identifier.
pub open spec fn distinct(configs: Seq<CameraConfig>) -> bool {
    forall|i: int, j: int| 0 <= i < j < configs.len() ==> configs[i].id@ != configs[j].id@
}

impl CameraManager {
    /// The configurations of the registered cameras.
    pub closed spec fn view(&self) -> Seq<CameraConfig> {
        configurations(self.cameras@)
    }

    /// The registry's invariant: identifiers are unique and clients sound.
    pub closed spec fn wf(&self) -> bool {
        &&& distinct(self.view())
        &&& forall|i: int| 0 <= i < self.cameras@.len() ==> (#[trigger] self.cameras@[i]).wf()
    }

    /// An empty registry.
    pub fn new() -> (r: CameraManager)
        ensures
            r.view() == Seq::<CameraConfig>::empty(),
            r.wf(),
    {
        let r = CameraManager { cameras: Vec::new() };
        assert(configurations(r.cameras@) == Seq::<CameraConfig>::empty());
        r
    }

    /// Index of the camera with the identifier `camera_id`.
    fn position(&self, camera_id: &str) -> (r: Option<usize>)
        ensures
            r matches Some(i) ==> camera_index(self.view(), camera_id@) == Some(i as int) && i
                < self.cameras@.len(),
            r is None ==> camera_index(self.view(), camera_id@) is None,
    {
        let mut i: usize = 0;
        while i < self.cameras.len()
            invariant
                camera_index(self.view(), camera_id@) == camera_index_from(
                    self.view(),
                    camera_id@,
                    i as int,
                ),
            decreases self.cameras.len() - i,
        {
            if same_text(self.cameras[i].camera_id(), camera_id) {
                return Some(i);
            }
            i += 1;
        }
        None
    }

    /// Registers the camera that `config` describes, in place of the one
    /// that has its identifier, or behind all others.
    pub fn add_camera(&mut self, config: CameraConfig)
        requires
            old(self).wf(),
        ensures
            final(self).wf(),
            match camera_index(old(self).view(), config.id@) {
                Some(i) => final(self).view() == old(self).view().update(i, config),
                None => final(self).view() == old(self).view().push(config),
            },
    {
        let ghost before = self.view();
        proof {
            lemma_camera_index_from(before, config.id@, 0);
        }
        let found = self.position(config.id.as_str());
        let client = CameraClient::new(config);
        match found {
            Some(i) => {
                self.cameras.set(i, client);
                assert(self.view() == before.update(i as int, config));
            },
            None => {
                self.cameras.push(client);
                assert(self.view() == before.push(config));
            },
        }
    }

    /// The client of the camera `camera_id`.
    pub fn get_camera(&self, camera_id: &str) -> (r: Option<&CameraClient>)
        requires
            self.wf(),
        ensures
            match camera_index(self.view(), camera_id@) {
                Some(i) => r matches Some(client) && client.configuration() == self.view()[i]
                    && client.wf(),
                None => r is None,
            },
    {
        match self.position(camera_id) {
            Some(i) => Some(&self.cameras[i]),
            None => None,
        }
    }

    /// The identifiers of the registered cameras, in the order of their
    /// registration.
    pub fn list_camera_ids(&self) -> (r: Vec<String>)
        ensures
            texts(r@) == identifiers(self.view()),
    {
        let mut ids: Vec<String> = Vec::new();
        let mut i: usize = 0;
        while i < self.cameras.len()
            invariant
                i <= self.cameras.len(),
                ids@.len() == i,
                forall|k: int| 0 <= k < i ==> (#[trigger] ids@[k])@ == self.view()[k].id@,
            decreases self.cameras.len() - i,
        {
            ids.push(from_chars(&to_chars(self.cameras[i].camera_id())));
            i += 1;
        }
        assert(texts(ids@) =~= identifiers(self.view()));
        ids
    }

    /// Removes the camera `camera_id`; an unknown camera is an error and
    /// leaves the registry as it is.
    pub fn remove_camera(&mut self, camera_id: &str) -> (r: Result<(), UnknownCamera>)
        requires
            old(self).wf(),
        ensures
            final(self).wf(),
            match camera_index(old(self).view(), camera_id@) {
                Some(i) => r is Ok && final(self).view() == old(self).view().remove(i),
                None => r matches Err(e) && e.camera_id@ == camera_id@ && final(self).view()
                    == old(self).view(),
            },
    {
        let ghost before = self.view();
        match self.position(camera_id) {
            Some(i) => {
                self.cameras.remove(i);
                assert(self.view() == before.remove(i as int));
                Ok(())
            },
            None => Err(UnknownCamera { camera_id: from_chars(&to_chars(camera_id)) }),
        }
    }
}

impl Default for CameraManager {
    fn default() -> (r: CameraManager)
        ensures
            r.view() == Seq::<CameraConfig>::empty(),
            r.wf(),
    {
        CameraManager::new()
    }
}

} // verus!
